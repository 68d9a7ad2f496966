//! The status of a ListenerSet: what it should be, whether it already is, and the patch.

use vstd::prelude::*;

use crate::conditions::{
    any_condition_stale, condition, conditions_json, conditions_to_json, conds, find_condition,
    first_of, lemma_first, make_condition, stale, Condition, ConditionView, GW_GROUP,
};
use crate::gateway_status::{find_listener, first_named, lemma_first_named};
use crate::json::{arr, items, number, opt_str, opt_str_json, text, Json, JsonView, Object};
use crate::listener_status::{
    lookup, set_listener, source_key, GatewayListenerStatus, ListenerEntry, ListenerInfo,
    ListenerSource,
};
use crate::resources::{
    kinds, listener_views, Listener, ListenerStatus, ListenerStatusView, ObjectKey, ObjectMeta,
    RouteKind, RouteKindView,
};
use crate::table::Same;
use crate::text::str_eq;

verus! {

/// The status of a ListenerSet.
#[derive(Debug, Clone, Default, PartialEq, Eq)]
pub struct ListenerSetStatus {
    /// Top-level conditions.
    pub conditions: Option<Vec<Condition>>,
    /// One entry for each listener.
    pub listeners: Option<Vec<ListenerStatus>>,
}

/// A ListenerSet.
#[derive(Debug, Clone, Default, PartialEq, Eq)]
pub struct ListenerSet {
    /// Metadata.
    pub metadata: ObjectMeta,
    /// Namespace of the parent Gateway; its own where there is none.
    pub parent_namespace: Option<String>,
    /// Name of the parent Gateway.
    pub parent_name: String,
    /// Its listeners.
    pub listeners: Vec<Listener>,
    /// Status.
    pub status: Option<ListenerSetStatus>,
}

impl ListenerSet {
    /// The top-level conditions; none where the status has none.
    pub open spec fn conds(&self) -> Seq<ConditionView> {
        match self.status {
            Some(s) => match s.conditions {
                Some(c) => conds(c@),
                None => Seq::empty(),
            },
            None => Seq::empty(),
        }
    }

    /// The listener statuses; none where the status has none.
    pub open spec fn listener_statuses(&self) -> Seq<ListenerStatusView> {
        match self.status {
            Some(s) => match s.listeners {
                Some(l) => listener_views(l@),
                None => Seq::empty(),
            },
            None => Seq::empty(),
        }
    }
}

/// Namespace and name of the ListenerSet.
pub fn listenerset_key(ls: &ListenerSet) -> (r: ObjectKey)
    ensures
        r@ == ls.metadata.key_view(),
{
    ls.metadata.key()
}

/// The listeners that the parent Gateway merged.
pub open spec fn merged(parent: Option<&GatewayListenerStatus>) -> Seq<ListenerEntry> {
    match parent {
        Some(h) => h.listeners@,
        None => Seq::empty(),
    }
}

/// The parent merged at least one listener of the ListenerSet, or it has none to merge.
pub open spec fn set_accepted(ls: ListenerSet, e: Seq<ListenerEntry>) -> bool {
    ls.listeners@.len() == 0 || exists|i: int|
        0 <= i < e.len() && source_key((#[trigger] e[i]).source) == Some(ls.metadata.key_view())
}

/// Whether the parent Gateway accepted the ListenerSet.
pub fn listenerset_accepted(ls: &ListenerSet, parent_health: Option<&GatewayListenerStatus>) -> (r:
    bool)
    ensures
        r == set_accepted(*ls, merged(parent_health)),
{
    if ls.listeners.len() == 0 {
        return true;
    }
    let key = listenerset_key(ls);
    match parent_health {
        Some(h) => {
            let e = &h.listeners;
            let mut i: usize = 0;
            while i < e.len()
                invariant
                    i <= e.len(),
                    e@ == merged(parent_health),
                    key@ == ls.metadata.key_view(),
                    forall|j: int|
                        0 <= j < i ==> source_key((#[trigger] e@[j]).source) != Some(key@),
                decreases e.len() - i,
            {
                let ours = match &e[i].source {
                    ListenerSource::Gateway => false,
                    ListenerSource::ListenerSet(k) => k.same(&key),
                };
                if ours {
                    assert(source_key(e@[i as int].source) == Some(ls.metadata.key_view()));
                    return true;
                }
                i = i + 1;
            }
            false
        },
        None => false,
    }
}

/// The health recorded for one listener of a ListenerSet.
pub fn listener_info<'a>(
    health: Option<&'a GatewayListenerStatus>,
    key: &ObjectKey,
    name: &str,
) -> (r: Option<&'a ListenerInfo>)
    ensures
        match r {
            Some(i) => lookup(merged(health), Some(key@), name@) == Some(*i),
            None => lookup(merged(health), Some(key@), name@) is None,
        },
{
    match health {
        Some(h) => set_listener(&h.listeners, key, name),
        None => None,
    }
}

/// The listener hands TLS through to its backends.
pub open spec fn passes_tls(l: Listener) -> bool {
    l.protocol@ == "TLS"@ && l.tls_passthrough
}

/// Whether the listener hands TLS through to its backends.
pub fn is_passthrough(l: &Listener) -> (r: bool)
    ensures
        r == passes_tls(*l),
{
    str_eq(l.protocol.as_str(), "TLS") && l.tls_passthrough
}

/// The group is the Gateway API group, or is left out.
pub open spec fn own_group(group: Option<Seq<char>>) -> bool {
    group is None || group->0.len() == 0 || group->0 == GW_GROUP@
}

/// A route of the kind `kind` can attach to a listener that passes TLS through or does not.
pub open spec fn is_http(k: RouteKindView) -> bool {
    k.kind == "HTTPRoute"@ && own_group(k.group)
}

/// The kind is a TLS route.
pub open spec fn is_tls(k: RouteKindView) -> bool {
    k.kind == "TLSRoute"@ && own_group(k.group)
}

/// A kind of the Gateway API group.
pub open spec fn api_kind(kind: Seq<char>) -> RouteKindView {
    RouteKindView { group: Some(GW_GROUP@), kind }
}

/// Whether the allowed kinds name one that the listener cannot carry, and those that it can.
pub open spec fn kind_info(l: Listener) -> (bool, Seq<RouteKindView>) {
    let tls = passes_tls(l);
    if l.allowed_kinds is None || l.allowed_kinds->0@.len() == 0 {
        (false, seq![api_kind(if tls { "TLSRoute"@ } else { "HTTPRoute"@ })])
    } else {
        let a = kinds(l.allowed_kinds->0@);
        let http = exists|i: int| 0 <= i < a.len() && is_http(#[trigger] a[i]);
        let passthrough = tls && exists|i: int| 0 <= i < a.len() && is_tls(#[trigger] a[i]);
        (
            exists|i: int|
                0 <= i < a.len() && !is_http(#[trigger] a[i]) && !(tls && is_tls(a[i])),
            (if http { seq![api_kind("HTTPRoute"@)] } else { Seq::empty() })
                + (if passthrough { seq![api_kind("TLSRoute"@)] } else { Seq::empty() }),
        )
    }
}

fn make_kind(kind: &str) -> (r: RouteKind)
    ensures
        r@ == api_kind(kind@),
{
    RouteKind { group: Some(GW_GROUP.to_owned()), kind: kind.to_owned() }
}

fn group_is_own(k: &RouteKind) -> (r: bool)
    ensures
        r == own_group(k@.group),
{
    match &k.group {
        Some(g) => g.as_str().is_empty() || str_eq(g.as_str(), GW_GROUP),
        None => true,
    }
}

/// Whether the allowed kinds name one that the listener cannot carry, and those that it can.
pub fn route_kind_info(l: &Listener) -> (r: (bool, Vec<RouteKind>))
    ensures
        r.0 == kind_info(*l).0,
        kinds(r.1@) == kind_info(*l).1,
{
    let passthrough = is_passthrough(l);
    let given = match &l.allowed_kinds {
        Some(k) => k.len() > 0,
        None => false,
    };
    if !given {
        let mut out: Vec<RouteKind> = Vec::new();
        let kind: &str = if passthrough {
            "TLSRoute"
        } else {
            "HTTPRoute"
        };
        out.push(make_kind(kind));
        assert(kinds(out@) =~= kind_info(*l).1);
        return (false, out);
    }
    let mut has_invalid = false;
    let mut includes_http = false;
    let mut includes_tls = false;
    let ghost a = kinds(l.allowed_kinds->0@);
    if let Some(allowed) = &l.allowed_kinds {
        proof {
            reveal_strlit("HTTPRoute");
            reveal_strlit("TLSRoute");
            assert("HTTPRoute"@.len() != "TLSRoute"@.len());
        }
        let mut i: usize = 0;
        while i < allowed.len()
            invariant
                i <= allowed.len(),
                a == kinds(allowed@),
                passthrough == passes_tls(*l),
                "HTTPRoute"@ != "TLSRoute"@,
                includes_http ==> exists|j: int| 0 <= j < a.len() && is_http(#[trigger] a[j]),
                !includes_http ==> forall|j: int| 0 <= j < i ==> !is_http(#[trigger] a[j]),
                includes_tls ==> passthrough && exists|j: int|
                    0 <= j < a.len() && is_tls(#[trigger] a[j]),
                !includes_tls ==> forall|j: int|
                    0 <= j < i ==> !(passthrough && is_tls(#[trigger] a[j])),
                has_invalid ==> exists|j: int|
                    0 <= j < a.len() && !is_http(#[trigger] a[j]) && !(passthrough && is_tls(
                        a[j],
                    )),
                !has_invalid ==> forall|j: int|
                    0 <= j < i ==> is_http(#[trigger] a[j]) || (passthrough && is_tls(a[j])),
            decreases allowed.len() - i,
        {
            let k = &allowed[i];
            let group_ok = group_is_own(k);
            assert(k@ == a[i as int]);
            if str_eq(k.kind.as_str(), "HTTPRoute") && group_ok {
                assert(is_http(a[i as int]));
                includes_http = true;
            } else if str_eq(k.kind.as_str(), "TLSRoute") && group_ok && passthrough {
                assert(is_tls(a[i as int]));
                includes_tls = true;
            } else {
                assert(!is_http(a[i as int]));
                has_invalid = true;
            }
            i = i + 1;
        }
    }
    let mut supported: Vec<RouteKind> = Vec::new();
    if includes_http {
        supported.push(make_kind("HTTPRoute"));
    }
    if includes_tls {
        supported.push(make_kind("TLSRoute"));
    }
    assert(kinds(supported@) =~= kind_info(*l).1);
    (has_invalid, supported)
}

/// The message of a listener that lost a conflict.
pub const CONFLICT_MESSAGE: &'static str =
    "listener lost a port-compatibility conflict to a higher-precedence listener";

/// The position of the first condition of type `t`, or the number of conditions where none has it.
pub open spec fn index_of(c: Seq<ConditionView>, t: Seq<char>) -> int
    decreases c.len(),
{
    if c.len() == 0 {
        0
    } else if c[0].type_ == t {
        0
    } else {
        1 + index_of(c.drop_first(), t)
    }
}

proof fn lemma_index(c: Seq<ConditionView>, t: Seq<char>)
    ensures
        0 <= index_of(c, t) <= c.len(),
        index_of(c, t) < c.len() ==> c[index_of(c, t)].type_ == t,
        forall|j: int| 0 <= j < index_of(c, t) ==> (#[trigger] c[j]).type_ != t,
    decreases c.len(),
{
    if c.len() > 0 && c[0].type_ != t {
        let d = c.drop_first();
        lemma_index(d, t);
        assert forall|j: int| 0 <= j < index_of(c, t) implies (#[trigger] c[j]).type_ != t by {
            if j > 0 {
                assert(d[j - 1] == c[j]);
            }
        }
    }
}

/// The conditions with the first `Programmed` one turned to `False` on account of a conflict.
pub open spec fn programmed_lost(c: Seq<ConditionView>) -> Seq<ConditionView> {
    let i = index_of(c, "Programmed"@);
    if i < c.len() {
        c.update(
            i,
            ConditionView {
                status: "False"@,
                reason: "HostnameConflict"@,
                message: CONFLICT_MESSAGE@,
                ..c[i]
            },
        )
    } else {
        c
    }
}

/// The conditions of one listener: `base` with `Programmed` corrected where the listener lost a
/// conflict, and the `Conflicted` condition after them.
pub open spec fn with_conflict(
    base: Seq<ConditionView>,
    conflicted: bool,
    generation: i64,
    now: Seq<char>,
) -> Seq<ConditionView> {
    if conflicted {
        programmed_lost(base).push(
            condition(
                "Conflicted"@,
                "True"@,
                "HostnameConflict"@,
                CONFLICT_MESSAGE@,
                generation,
                now,
            ),
        )
    } else {
        base.push(condition("Conflicted"@, "False"@, "NoConflicts"@, ""@, generation, now))
    }
}

/// The listener lost a conflict.
pub open spec fn lost(info: Option<ListenerInfo>) -> bool {
    info is Some && info->0.conflicted
}

/// The conditions of one listener, from the `Accepted`, `ResolvedRefs` and `Programmed` ones in
/// `base`.
pub fn listener_conditions(
    base: &Vec<Condition>,
    info: Option<&ListenerInfo>,
    generation: i64,
    now: &str,
) -> (r: Vec<Condition>)
    ensures
        conds(r@) == with_conflict(
            conds(base@),
            match info {
                Some(i) => i.conflicted,
                None => false,
            },
            generation,
            now@,
        ),
{
    let conflicted = match info {
        Some(i) => i.conflicted,
        None => false,
    };
    let ghost b = conds(base@);
    let ghost hit = index_of(b, "Programmed"@);
    proof {
        lemma_index(b, "Programmed"@);
    }
    let mut out: Vec<Condition> = Vec::new();
    let mut seen = false;
    let mut i: usize = 0;
    while i < base.len()
        invariant
            i <= base.len(),
            out.len() == i,
            b == conds(base@),
            hit == index_of(b, "Programmed"@),
            0 <= hit <= b.len(),
            hit < b.len() ==> b[hit].type_ == "Programmed"@,
            forall|j: int| 0 <= j < hit ==> (#[trigger] b[j]).type_ != "Programmed"@,
            seen == (hit < i),
            forall|j: int|
                0 <= j < i ==> (#[trigger] out@[j])@ == if conflicted && j == hit {
                    ConditionView {
                        status: "False"@,
                        reason: "HostnameConflict"@,
                        message: CONFLICT_MESSAGE@,
                        ..b[j]
                    }
                } else {
                    b[j]
                },
        decreases base.len() - i,
    {
        let mut c = base[i].copy();
        assert(c@ == b[i as int]);
        if !seen && str_eq(c.type_.as_str(), "Programmed") {
            assert(i == hit);
            seen = true;
            if conflicted {
                c = Condition {
                    type_: c.type_,
                    status: "False".to_owned(),
                    reason: "HostnameConflict".to_owned(),
                    message: CONFLICT_MESSAGE.to_owned(),
                    observed_generation: c.observed_generation,
                    last_transition_time: c.last_transition_time,
                };
            }
        }
        out.push(c);
        i = i + 1;
    }
    let ghost kept = out@;
    assert(conds(kept) =~= if conflicted { programmed_lost(b) } else { b });
    if conflicted {
        out.push(
            make_condition(
                "Conflicted",
                "True",
                "HostnameConflict",
                CONFLICT_MESSAGE,
                generation,
                now,
            ),
        );
    } else {
        out.push(make_condition("Conflicted", "False", "NoConflicts", "", generation, now));
    }
    assert(conds(out@) =~= with_conflict(b, conflicted, generation, now@));
    out
}

/// The first condition of type `t` is `True`.
pub open spec fn first_true(c: Seq<ConditionView>, t: Seq<char>) -> bool {
    first_of(c, t) is Some && first_of(c, t)->0.status == "True"@
}

/// Whether the first condition of the type is `True`.
pub fn cond_true(c: &[Condition], type_: &str) -> (r: bool)
    ensures
        r == first_true(conds(c@), type_@),
{
    match find_condition(c, type_) {
        Some(x) => str_eq(x.status.as_str(), "True"),
        None => false,
    }
}

/// The status entry of one listener.
pub open spec fn set_listener_status(
    l: Listener,
    info: Option<ListenerInfo>,
    base: Seq<ConditionView>,
    generation: i64,
    now: Seq<char>,
) -> ListenerStatusView {
    ListenerStatusView {
        name: l.name@,
        attached_routes: crate::gateway_status::attached(info),
        supported_kinds: Some(kind_info(l).1),
        conditions: with_conflict(base, lost(info), generation, now),
    }
}

/// What a list of lists of conditions holds.
pub open spec fn bases_view(v: Seq<Vec<Condition>>) -> Seq<Seq<ConditionView>> {
    Seq::new(v.len(), |i: int| conds(v[i]@))
}

/// The status entries of all listeners.
pub open spec fn set_listener_statuses(
    ls: ListenerSet,
    e: Seq<ListenerEntry>,
    bases: Seq<Seq<ConditionView>>,
    generation: i64,
    now: Seq<char>,
) -> Seq<ListenerStatusView> {
    Seq::new(
        ls.listeners@.len(),
        |i: int|
            set_listener_status(
                ls.listeners@[i],
                lookup(e, Some(ls.metadata.key_view()), ls.listeners@[i].name@),
                bases[i],
                generation,
                now,
            ),
    )
}

/// Every listener is programmed.
pub open spec fn all_programmed(s: Seq<ListenerStatusView>) -> bool {
    forall|i: int| 0 <= i < s.len() ==> first_true((#[trigger] s[i]).conditions, "Programmed"@)
}

/// The top-level conditions of the ListenerSet.
pub open spec fn set_conditions(
    accepted: bool,
    programmed: bool,
    generation: i64,
    now: Seq<char>,
) -> Seq<ConditionView> {
    seq![
        if accepted {
            condition("Accepted"@, "True"@, "Accepted"@, ""@, generation, now)
        } else {
            condition(
                "Accepted"@,
                "False"@,
                "NotAllowed"@,
                "the parent Gateway's spec.allowedListeners does not permit this ListenerSet"@,
                generation,
                now,
            )
        },
        if !accepted {
            condition(
                "Programmed"@,
                "False"@,
                "Pending"@,
                "ListenerSet not accepted by the parent Gateway"@,
                generation,
                now,
            )
        } else if programmed {
            condition("Programmed"@, "True"@, "Programmed"@, ""@, generation, now)
        } else {
            condition(
                "Programmed"@,
                "False"@,
                "Invalid"@,
                "one or more listeners are not programmed"@,
                generation,
                now,
            )
        },
    ]
}

/// A patch of a ListenerSet's status.
#[derive(Debug, Clone, Default, PartialEq, Eq)]
pub struct ListenerSetPatch {
    /// Top-level conditions.
    pub conditions: Vec<Condition>,
    /// One entry for each listener.
    pub listeners: Vec<ListenerStatus>,
}

/// The patch that brings the status of a ListenerSet to what it should be.
///
/// `bases` holds, for each listener, its `Accepted`, `ResolvedRefs` and `Programmed` conditions
/// before conflicts are looked at.
pub fn desired_listenerset_status(
    ls: &ListenerSet,
    parent_health: Option<&GatewayListenerStatus>,
    accepted: bool,
    bases: &Vec<Vec<Condition>>,
    generation: i64,
    now: &str,
) -> (r: ListenerSetPatch)
    requires
        bases.len() == ls.listeners.len(),
    ensures
        listener_views(r.listeners@) == set_listener_statuses(
            *ls,
            merged(parent_health),
            bases_view(bases@),
            generation,
            now@,
        ),
        conds(r.conditions@) == set_conditions(
            accepted,
            all_programmed(listener_views(r.listeners@)),
            generation,
            now@,
        ),
{
    let key = listenerset_key(ls);
    let ghost want = set_listener_statuses(
        *ls,
        merged(parent_health),
        bases_view(bases@),
        generation,
        now@,
    );
    let mut programmed = true;
    let mut listeners: Vec<ListenerStatus> = Vec::new();
    let mut i: usize = 0;
    while i < ls.listeners.len()
        invariant
            bases.len() == ls.listeners.len(),
            i <= ls.listeners.len(),
            listeners.len() == i,
            key@ == ls.metadata.key_view(),
            want == set_listener_statuses(
                *ls,
                merged(parent_health),
                bases_view(bases@),
                generation,
                now@,
            ),
            forall|j: int| 0 <= j < i ==> (#[trigger] listeners@[j])@ == want[j],
            programmed ==> forall|j: int|
                0 <= j < i ==> first_true((#[trigger] want[j]).conditions, "Programmed"@),
            !programmed ==> exists|j: int|
                0 <= j < want.len() && !first_true((#[trigger] want[j]).conditions, "Programmed"@),
        decreases ls.listeners.len() - i,
    {
        let l = &ls.listeners[i];
        let info = listener_info(parent_health, &key, l.name.as_str());
        let (invalid, supported) = route_kind_info(l);
        let c = listener_conditions(&bases[i], info, generation, now);
        let attached: i32 = match info {
            Some(x) => x.attached_routes,
            None => 0,
        };
        let ghost cv = conds(c@);
        let is_programmed = cond_true(c.as_slice(), "Programmed");
        let entry = ListenerStatus {
            name: l.name.clone(),
            attached_routes: attached,
            supported_kinds: Some(supported),
            conditions: c,
        };
        assert(bases_view(bases@)[i as int] == conds(bases@[i as int]@));
        assert(entry@ == want[i as int]);
        if !is_programmed {
            assert(!first_true(want[i as int].conditions, "Programmed"@));
            programmed = false;
        }
        listeners.push(entry);
        i = i + 1;
    }
    assert(listener_views(listeners@) =~= want);
    assert(programmed == all_programmed(want));
    let mut conditions: Vec<Condition> = Vec::new();
    if accepted {
        conditions.push(make_condition("Accepted", "True", "Accepted", "", generation, now));
    } else {
        conditions.push(
            make_condition(
                "Accepted",
                "False",
                "NotAllowed",
                "the parent Gateway's spec.allowedListeners does not permit this ListenerSet",
                generation,
                now,
            ),
        );
    }
    if !accepted {
        conditions.push(
            make_condition(
                "Programmed",
                "False",
                "Pending",
                "ListenerSet not accepted by the parent Gateway",
                generation,
                now,
            ),
        );
    } else if programmed {
        conditions.push(make_condition("Programmed", "True", "Programmed", "", generation, now));
    } else {
        conditions.push(
            make_condition(
                "Programmed",
                "False",
                "Invalid",
                "one or more listeners are not programmed",
                generation,
                now,
            ),
        );
    }
    assert(conds(conditions@) =~= set_conditions(accepted, all_programmed(want), generation, now@));
    ListenerSetPatch { conditions, listeners }
}

/// A supported kind in JSON; the group is `null` where there is none.
pub open spec fn set_kind_json(k: RouteKindView) -> JsonView {
    JsonView::Obj(seq![("group"@, opt_str(k.group)), ("kind"@, JsonView::Str(k.kind))])
}

/// The kinds of a listener status.
pub open spec fn kinds_of(l: ListenerStatusView) -> Seq<RouteKindView> {
    match l.supported_kinds {
        Some(k) => k,
        None => Seq::empty(),
    }
}

/// A listener status of a ListenerSet in JSON.
pub open spec fn set_listener_json(l: ListenerStatusView) -> JsonView {
    let k = kinds_of(l);
    JsonView::Obj(
        seq![
            ("name"@, JsonView::Str(l.name)),
            ("attachedRoutes"@, JsonView::Int(l.attached_routes as int)),
            ("supportedKinds"@, JsonView::Arr(Seq::new(k.len(), |i: int| set_kind_json(k[i])))),
            ("conditions"@, conditions_json(l.conditions)),
        ],
    )
}

/// A patch of a ListenerSet's status in JSON.
pub open spec fn set_patch_json(c: Seq<ConditionView>, l: Seq<ListenerStatusView>) -> JsonView {
    JsonView::Obj(
        seq![
            (
                "status"@,
                JsonView::Obj(
                    seq![
                        ("conditions"@, conditions_json(c)),
                        (
                            "listeners"@,
                            JsonView::Arr(Seq::new(l.len(), |i: int| set_listener_json(l[i]))),
                        ),
                    ],
                ),
            ),
        ],
    )
}

fn set_kind_to_json(k: &RouteKind) -> (r: Json)
    ensures
        r@ == set_kind_json(k@),
{
    let r = Object::new().with("group", opt_str_json(&k.group)).with("kind", text(k.kind.as_str()))
        .done();
    assert(r@->Obj_0 =~= set_kind_json(k@)->Obj_0);
    r
}

fn set_listener_to_json(l: &ListenerStatus) -> (r: Json)
    ensures
        r@ == set_listener_json(l@),
{
    let mut out: Vec<Json> = Vec::new();
    if let Some(k) = &l.supported_kinds {
        let mut i: usize = 0;
        while i < k.len()
            invariant
                i <= k.len(),
                out.len() == i,
                forall|j: int| 0 <= j < i ==> (#[trigger] out@[j])@ == set_kind_json(k@[j]@),
            decreases k.len() - i,
        {
            out.push(set_kind_to_json(&k[i]));
            i = i + 1;
        }
    }
    assert(items(out@) =~= Seq::new(
        kinds_of(l@).len(),
        |i: int| set_kind_json(kinds_of(l@)[i]),
    ));
    let r = Object::new().with("name", text(l.name.as_str())).with(
        "attachedRoutes",
        number(l.attached_routes as i64),
    ).with("supportedKinds", arr(out)).with("conditions", conditions_to_json(&l.conditions)).done();
    assert(r@->Obj_0 =~= set_listener_json(l@)->Obj_0);
    r
}

impl ListenerSetPatch {
    /// The patch in JSON.
    pub fn to_json(&self) -> (r: Json)
        ensures
            r@ == set_patch_json(conds(self.conditions@), listener_views(self.listeners@)),
    {
        let l = &self.listeners;
        let mut out: Vec<Json> = Vec::new();
        let mut i: usize = 0;
        while i < l.len()
            invariant
                i <= l.len(),
                out.len() == i,
                forall|j: int| 0 <= j < i ==> (#[trigger] out@[j])@ == set_listener_json(l@[j]@),
            decreases l.len() - i,
        {
            out.push(set_listener_to_json(&l[i]));
            i = i + 1;
        }
        assert(items(out@) =~= Seq::new(
            listener_views(l@).len(),
            |i: int| set_listener_json(listener_views(l@)[i]),
        ));
        let o = Object::new().with("conditions", conditions_to_json(&self.conditions)).with(
            "listeners",
            arr(out),
        );
        let ghost status = o@;
        let r = Object::new().with("status", o.done()).done();
        let ghost want = set_patch_json(conds(self.conditions@), listener_views(l@));
        assert(want->Obj_0[0].1->Obj_0 =~= status);
        assert(r@->Obj_0 =~= want->Obj_0);
        r
    }
}

/// The patch that brings the status of a ListenerSet to what it should be, in JSON.
pub fn build_listenerset_status_patch(
    ls: &ListenerSet,
    parent_health: Option<&GatewayListenerStatus>,
    accepted: bool,
    bases: &Vec<Vec<Condition>>,
    generation: i64,
    now: &str,
) -> (r: Json)
    requires
        bases.len() == ls.listeners.len(),
    ensures
        ({
            let l = set_listener_statuses(
                *ls,
                merged(parent_health),
                bases_view(bases@),
                generation,
                now@,
            );
            r@ == set_patch_json(
                set_conditions(accepted, all_programmed(l), generation, now@),
                l,
            )
        }),
{
    desired_listenerset_status(ls, parent_health, accepted, bases, generation, now).to_json()
}

/// The listener can be programmed: it lost no conflict and its references resolve.
pub open spec fn can_program(info: Option<ListenerInfo>) -> bool {
    info matches Some(i) ==> !i.conflicted && i.healthy
}

/// A status entry agrees with the health of its listener, and was observed at `generation`.
pub open spec fn set_entry_current(
    entry: Option<ListenerStatusView>,
    l: Listener,
    info: Option<ListenerInfo>,
    generation: int,
) -> bool {
    &&& entry is Some
    &&& entry->0.attached_routes == crate::gateway_status::attached(info)
    &&& first_true(entry->0.conditions, "ResolvedRefs"@) == (!kind_info(l).0 && (info matches Some(
        i,
    ) ==> i.healthy))
    &&& first_true(entry->0.conditions, "Accepted"@) == (info matches Some(i) ==> !i.unsupported)
    &&& first_true(entry->0.conditions, "Programmed"@) == can_program(info)
    &&& first_true(entry->0.conditions, "Conflicted"@) == lost(info)
    &&& !stale(entry->0.conditions, generation)
}

/// The health of the listener `l` of the ListenerSet.
pub open spec fn health_of(ls: ListenerSet, e: Seq<ListenerEntry>, l: Listener) -> Option<
    ListenerInfo,
> {
    lookup(e, Some(ls.metadata.key_view()), l.name@)
}

/// The status of the ListenerSet is what it should be.
pub open spec fn listenerset_current(ls: ListenerSet, e: Seq<ListenerEntry>, accepted: bool) -> bool {
    let generation = ls.metadata.gen() as int;
    let spec = ls.listeners@;
    &&& first_true(ls.conds(), "Accepted"@) == accepted
    &&& ls.listener_statuses().len() == spec.len()
    &&& !stale(ls.conds(), generation)
    &&& forall|i: int|
        0 <= i < spec.len() ==> set_entry_current(
            first_named(ls.listener_statuses(), (#[trigger] spec[i]).name@),
            spec[i],
            health_of(ls, e, spec[i]),
            generation,
        )
    &&& first_true(ls.conds(), "Programmed"@) == (accepted && forall|i: int|
        0 <= i < spec.len() ==> can_program(health_of(ls, e, #[trigger] spec[i])))
}

/// Whether the status of the ListenerSet differs from what it should be.
pub fn listenerset_needs_status_patch(
    ls: &ListenerSet,
    parent_health: Option<&GatewayListenerStatus>,
    accepted: bool,
) -> (r: bool)
    ensures
        r == !listenerset_current(*ls, merged(parent_health), accepted),
{
    let ghost e = merged(parent_health);
    let no_conditions: Vec<Condition> = Vec::new();
    let no_listeners: Vec<ListenerStatus> = Vec::new();
    let top: &Vec<Condition> = match &ls.status {
        Some(s) => match &s.conditions {
            Some(c) => c,
            None => &no_conditions,
        },
        None => &no_conditions,
    };
    let current: &Vec<ListenerStatus> = match &ls.status {
        Some(s) => match &s.listeners {
            Some(l) => l,
            None => &no_listeners,
        },
        None => &no_listeners,
    };
    assert(conds(top@) =~= ls.conds());
    assert(listener_views(current@) =~= ls.listener_statuses());
    if cond_true(top.as_slice(), "Accepted") != accepted {
        return true;
    }
    let key = listenerset_key(ls);
    if current.len() != ls.listeners.len() {
        return true;
    }
    let expected_gen: i64 = ls.metadata.generation_or_zero();
    if any_condition_stale(top.as_slice(), expected_gen) {
        return true;
    }
    let mut programmable = true;
    let mut i: usize = 0;
    while i < ls.listeners.len()
        invariant
            i <= ls.listeners.len(),
            key@ == ls.metadata.key_view(),
            e == merged(parent_health),
            expected_gen == ls.metadata.gen(),
            listener_views(current@) == ls.listener_statuses(),
            forall|j: int|
                0 <= j < i ==> set_entry_current(
                    first_named(ls.listener_statuses(), (#[trigger] ls.listeners@[j]).name@),
                    ls.listeners@[j],
                    health_of(*ls, e, ls.listeners@[j]),
                    expected_gen as int,
                ),
            programmable ==> forall|j: int|
                0 <= j < i ==> can_program(health_of(*ls, e, #[trigger] ls.listeners@[j])),
            !programmable ==> exists|j: int|
                0 <= j < ls.listeners@.len() && !can_program(
                    health_of(*ls, e, #[trigger] ls.listeners@[j]),
                ),
        decreases ls.listeners.len() - i,
    {
        let l = &ls.listeners[i];
        let info = listener_info(parent_health, &key, l.name.as_str());
        let (has_invalid_kinds, supported) = route_kind_info(l);
        let conflicted = match info {
            Some(x) => x.conflicted,
            None => false,
        };
        let healthy = match info {
            Some(x) => x.healthy,
            None => true,
        };
        let desired_resolved = !has_invalid_kinds && healthy;
        let desired_accepted = match info {
            Some(x) => !x.unsupported,
            None => true,
        };
        let desired_programmed = !conflicted && healthy;
        if !desired_programmed {
            assert(!can_program(health_of(*ls, e, ls.listeners@[i as int])));
            programmable = false;
        }
        let desired_attached: i32 = match info {
            Some(x) => x.attached_routes,
            None => 0,
        };
        let ghost ok = set_entry_current(
            first_named(ls.listener_statuses(), ls.listeners@[i as int].name@),
            ls.listeners@[i as int],
            health_of(*ls, e, ls.listeners@[i as int]),
            expected_gen as int,
        );
        match find_listener(current.as_slice(), l.name.as_str()) {
            Some(cur) => {
                if cur.attached_routes != desired_attached {
                    assert(!ok);
                    return true;
                }
                if cond_true(cur.conditions.as_slice(), "ResolvedRefs") != desired_resolved
                    || cond_true(cur.conditions.as_slice(), "Accepted") != desired_accepted
                    || cond_true(cur.conditions.as_slice(), "Programmed") != desired_programmed
                    || cond_true(cur.conditions.as_slice(), "Conflicted") != conflicted {
                    assert(!ok);
                    return true;
                }
                if any_condition_stale(cur.conditions.as_slice(), expected_gen) {
                    assert(!ok);
                    return true;
                }
                assert(ok);
            },
            None => {
                assert(!ok);
                return true;
            },
        }
        i = i + 1;
    }
    cond_true(top.as_slice(), "Programmed") != (accepted && programmable)
}

/// The base conditions of a listener agree with its health and were observed at `generation`.
pub open spec fn base_agrees(
    base: Seq<ConditionView>,
    l: Listener,
    info: Option<ListenerInfo>,
    generation: i64,
) -> bool {
    &&& first_true(base, "ResolvedRefs"@) == (!kind_info(l).0 && (info matches Some(i)
        ==> i.healthy))
    &&& first_true(base, "Accepted"@) == (info matches Some(i) ==> !i.unsupported)
    &&& !lost(info) ==> first_true(base, "Programmed"@) == can_program(info)
    &&& first_of(base, "Conflicted"@) is None
    &&& !stale(base, generation as int)
}

proof fn lemma_first_of_push(c: Seq<ConditionView>, x: ConditionView, t: Seq<char>)
    ensures
        first_of(c.push(x), t) == match first_of(c, t) {
            Some(y) => Some(y),
            None => if x.type_ == t {
                Some(x)
            } else {
                None
            },
        },
{
    assert(c.push(x) =~= c + seq![x]);
    crate::conditions::lemma_first_of_concat(c, seq![x], t);
    lemma_first(seq![x], t, if x.type_ == t { 0 } else { 1 });
}

proof fn lemma_with_conflict(
    base: Seq<ConditionView>,
    l: Listener,
    info: Option<ListenerInfo>,
    generation: i64,
    now: Seq<char>,
)
    requires
        base_agrees(base, l, info, generation),
    ensures
        ({
            let c = with_conflict(base, lost(info), generation, now);
            &&& first_true(c, "ResolvedRefs"@) == first_true(base, "ResolvedRefs"@)
            &&& first_true(c, "Accepted"@) == first_true(base, "Accepted"@)
            &&& first_true(c, "Programmed"@) == can_program(info)
            &&& first_true(c, "Conflicted"@) == lost(info)
            &&& !stale(c, generation as int)
        }),
{
    reveal_strlit("Accepted");
    reveal_strlit("Programmed");
    reveal_strlit("ResolvedRefs");
    reveal_strlit("Conflicted");
    reveal_strlit("True");
    reveal_strlit("False");
    assert("Programmed"@[0] != "Conflicted"@[0]);
    assert("Accepted"@.len() == 8 && "Programmed"@.len() == 10 && "ResolvedRefs"@.len() == 12
        && "Conflicted"@.len() == 10 && "True"@.len() == 4 && "False"@.len() == 5);
    let conflicted = lost(info);
    let mid = if conflicted {
        programmed_lost(base)
    } else {
        base
    };
    let c = with_conflict(base, conflicted, generation, now);
    let last = c.last();
    assert(c == mid.push(last));
    let p = "Programmed"@;
    lemma_index(base, p);
    let k = index_of(base, p);
    if conflicted {
        lemma_same_elsewhere(base, mid, "ResolvedRefs"@);
        lemma_same_elsewhere(base, mid, "Accepted"@);
        lemma_same_elsewhere(base, mid, "Conflicted"@);
        lemma_first(mid, p, k);
        if k < base.len() {
            assert(mid[k].status == "False"@);
        }
        assert(!first_true(mid, p));
    }
    lemma_first_of_push(mid, last, "ResolvedRefs"@);
    lemma_first_of_push(mid, last, "Accepted"@);
    lemma_first_of_push(mid, last, p);
    lemma_first_of_push(mid, last, "Conflicted"@);
    if stale(c, generation as int) {
        let i = choose|i: int| 0 <= i < c.len() && (#[trigger] c[i]).gen() < generation;
        assert(i < base.len());
        assert(base[i].gen() == c[i].gen());
        assert(stale(base, generation as int));
    }
}

/// Turning the first `Programmed` condition leaves every other type as it was.
proof fn lemma_same_elsewhere(base: Seq<ConditionView>, mid: Seq<ConditionView>, t: Seq<char>)
    requires
        mid == programmed_lost(base),
        t != "Programmed"@,
    ensures
        first_of(mid, t) == first_of(base, t),
{
    lemma_index(base, "Programmed"@);
    lemma_index(base, t);
    let i = index_of(base, t);
    let k = index_of(base, "Programmed"@);
    lemma_first(base, t, i);
    assert forall|j: int| 0 <= j < i implies (#[trigger] mid[j]).type_ != t by {
        assert(base[j].type_ != t);
    }
    lemma_first(mid, t, i);
}

/// `after` is `before` with the patch merged into its status.
pub open spec fn set_patched(
    before: ListenerSet,
    c: Seq<ConditionView>,
    l: Seq<ListenerStatusView>,
    after: ListenerSet,
) -> bool {
    &&& after.metadata.gen() == before.metadata.gen()
    &&& after.metadata.key_view() == before.metadata.key_view()
    &&& after.listeners@ == before.listeners@
    &&& after.conds() == c
    &&& after.listener_statuses() == l
}

/// Once the patch has been applied there is nothing left to patch.
///
/// No two listeners may have the same name, and the base conditions must agree with the health of
/// their listeners.
pub proof fn listenerset_patch_settles(
    ls: ListenerSet,
    e: Seq<ListenerEntry>,
    accepted: bool,
    bases: Seq<Seq<ConditionView>>,
    now: Seq<char>,
    after: ListenerSet,
)
    requires
        bases.len() == ls.listeners@.len(),
        forall|i: int, j: int|
            0 <= i < j < ls.listeners@.len() ==> (#[trigger] ls.listeners@[i]).name@ != (
            #[trigger] ls.listeners@[j]).name@,
        forall|i: int|
            0 <= i < ls.listeners@.len() ==> base_agrees(
                bases[i],
                #[trigger] ls.listeners@[i],
                health_of(ls, e, ls.listeners@[i]),
                ls.metadata.gen(),
            ),
        ({
            let l = set_listener_statuses(ls, e, bases, ls.metadata.gen(), now);
            set_patched(
                ls,
                set_conditions(accepted, all_programmed(l), ls.metadata.gen(), now),
                l,
                after,
            )
        }),
    ensures
        listenerset_current(after, e, accepted),
{
    let generation = ls.metadata.gen();
    let spec = ls.listeners@;
    let l = set_listener_statuses(ls, e, bases, generation, now);
    let top = after.conds();
    assert forall|i: int| 0 <= i < spec.len() implies set_entry_current(
        first_named(l, (#[trigger] spec[i]).name@),
        spec[i],
        health_of(after, e, spec[i]),
        generation as int,
    ) && first_true(l[i].conditions, "Programmed"@) == can_program(health_of(ls, e, spec[i])) by {
        lemma_with_conflict(bases[i], spec[i], health_of(ls, e, spec[i]), generation, now);
        assert(l[i].name == spec[i].name@);
        assert forall|j: int| 0 <= j < i implies (#[trigger] l[j]).name != spec[i].name@ by {
            assert(spec[j].name@ != spec[i].name@);
        }
        lemma_first_named(l, spec[i].name@, i);
    }
    assert(all_programmed(l) == forall|i: int|
        0 <= i < spec.len() ==> can_program(health_of(ls, e, #[trigger] spec[i]))) by {
        if all_programmed(l) {
            assert forall|i: int| 0 <= i < spec.len() implies can_program(
                health_of(ls, e, #[trigger] spec[i]),
            ) by {
                assert(first_true(l[i].conditions, "Programmed"@));
            }
        } else {
            let i = choose|i: int|
                0 <= i < l.len() && !first_true((#[trigger] l[i]).conditions, "Programmed"@);
            assert(!can_program(health_of(ls, e, spec[i])));
        }
    }
    reveal_strlit("Accepted");
    reveal_strlit("Programmed");
    reveal_strlit("True");
    reveal_strlit("False");
    assert("Accepted"@.len() == 8 && "Programmed"@.len() == 10 && "True"@.len() == 4
        && "False"@.len() == 5);
    lemma_first(top, "Accepted"@, 0);
    lemma_first(top, "Programmed"@, 1);
    assert(!stale(top, generation as int));
    assert forall|i: int| 0 <= i < spec.len() implies health_of(after, e, #[trigger] spec[i])
        == health_of(ls, e, spec[i]) by {}
}

} // verus!
