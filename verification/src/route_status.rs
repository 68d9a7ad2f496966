//! The status of routes: one entry for each parent that this controller owns.

use vstd::prelude::*;

use crate::conditions::{
    condition, conditions_json, conditions_to_json, conds, make_condition, opt_slice, owned_parent,
    parent_ref_owned, Condition, ConditionView,
};
use crate::json::{arr, items, number, text, Json, JsonView, Object};
use crate::resources::{
    parents, str_or, text_or, ObjectKey, ObjectMeta, ParentRef, ParentRefView,
};
use crate::table::{KeySet, Same, Table};
use crate::text::{opt_copy, opt_eq, opt_text, str_eq};
use crate::write::{opt_write, write_status, write_to, StatusWrite, WriteView};

verus! {

/// A route, the Gateway that it attaches to, and the listener there.
#[derive(Debug, Clone, Default, PartialEq, Eq, Hash)]
pub struct RouteParentKey {
    /// Namespace of the route.
    pub route_ns: String,
    /// Name of the route.
    pub route_name: String,
    /// Namespace of the Gateway.
    pub gateway_ns: String,
    /// Name of the Gateway.
    pub gateway_name: String,
    /// Name of the listener; empty where the route attaches to all of them.
    pub section: String,
}

impl View for RouteParentKey {
    type V = (Seq<char>, Seq<char>, Seq<char>, Seq<char>, Seq<char>);

    open spec fn view(&self) -> (Seq<char>, Seq<char>, Seq<char>, Seq<char>, Seq<char>) {
        (
            self.route_ns@,
            self.route_name@,
            self.gateway_ns@,
            self.gateway_name@,
            self.section@,
        )
    }
}

impl Same for RouteParentKey {
    fn same(&self, other: &Self) -> (r: bool) {
        str_eq(self.route_ns.as_str(), other.route_ns.as_str()) && str_eq(
            self.route_name.as_str(),
            other.route_name.as_str(),
        ) && str_eq(self.gateway_ns.as_str(), other.gateway_ns.as_str()) && str_eq(
            self.gateway_name.as_str(),
            other.gateway_name.as_str(),
        ) && str_eq(self.section.as_str(), other.section.as_str())
    }
}

/// How a route stands with one parent.
#[derive(Debug, Clone, Default, PartialEq, Eq)]
pub struct RouteParentHealth {
    /// Whether the parent accepts the route.
    pub accepted: bool,
    /// Why.
    pub accepted_reason: String,
    /// Whether the references of the route resolve.
    pub resolved_refs: bool,
    /// Why.
    pub resolved_refs_reason: String,
}

/// The status of a route with one parent.
#[derive(Debug, Clone, Default, PartialEq, Eq)]
pub struct RouteParentStatus {
    /// The controller that wrote it.
    pub controller_name: String,
    /// The parent.
    pub parent_ref: ParentRef,
    /// Its conditions.
    pub conditions: Vec<Condition>,
}

/// What the status of a route with one parent holds.
#[verifier::ext_equal]
pub struct RouteParentView {
    /// The controller that wrote it.
    pub controller_name: Seq<char>,
    /// The parent.
    pub parent_ref: ParentRefView,
    /// Its conditions.
    pub conditions: Seq<ConditionView>,
}

impl View for RouteParentStatus {
    type V = RouteParentView;

    open spec fn view(&self) -> RouteParentView {
        RouteParentView {
            controller_name: self.controller_name@,
            parent_ref: self.parent_ref@,
            conditions: conds(self.conditions@),
        }
    }
}

/// What a list of parent statuses holds.
pub open spec fn parent_views(v: Seq<RouteParentStatus>) -> Seq<RouteParentView> {
    Seq::new(v.len(), |i: int| v[i]@)
}

/// A route.
#[derive(Debug, Clone, Default, PartialEq, Eq)]
pub struct Route {
    /// Metadata.
    pub metadata: ObjectMeta,
    /// The parents that it asks to attach to.
    pub parent_refs: Option<Vec<ParentRef>>,
    /// `status.parents`, where there is a status.
    pub parents: Option<Vec<RouteParentStatus>>,
}

/// The namespace of the route; `default` where it has none.
pub open spec fn route_ns(route: Route) -> Seq<char> {
    text_or(route.metadata.namespace, "default"@)
}

/// The parent is an owned Gateway.
pub open spec fn owned_ref(
    p: ParentRefView,
    default_ns: Seq<char>,
    owned: Set<(Seq<char>, Seq<char>)>,
) -> bool {
    owned_parent(p.group, p.kind, p.namespace, p.name, default_ns, owned)
}

fn deref(o: &Option<String>) -> (r: Option<&str>)
    ensures
        opt_slice(r) == opt_text(*o),
{
    match o {
        Some(s) => Some(s.as_str()),
        None => None,
    }
}

fn check_owned(p: &ParentRef, default_ns: &str, owned: &KeySet<ObjectKey>) -> (r: bool)
    ensures
        r == owned_ref(p@, default_ns@, owned@),
{
    parent_ref_owned(
        deref(&p.group),
        deref(&p.kind),
        deref(&p.namespace),
        p.name.as_str(),
        default_ns,
        owned,
    )
}

impl ParentRef {
    /// A copy of the reference.
    pub fn copy(&self) -> (r: Self)
        ensures
            r@ == self@,
    {
        ParentRef {
            group: opt_copy(&self.group),
            kind: opt_copy(&self.kind),
            namespace: opt_copy(&self.namespace),
            name: self.name.clone(),
            section_name: opt_copy(&self.section_name),
            port: self.port,
        }
    }
}

/// The references that point at owned Gateways, in their order.
pub fn filter_owned_parent_refs(
    parent_refs: &Vec<ParentRef>,
    default_ns: &str,
    owned_gateways: &KeySet<ObjectKey>,
) -> (r: Vec<ParentRef>)
    ensures
        parents(r@) == parents(parent_refs@).filter(
            |p: ParentRefView| owned_ref(p, default_ns@, owned_gateways@),
        ),
{
    let ghost all = parents(parent_refs@);
    let ghost keep = |p: ParentRefView| owned_ref(p, default_ns@, owned_gateways@);
    let mut out: Vec<ParentRef> = Vec::new();
    let mut i: usize = 0;
    assert(all.take(0).filter(keep) =~= Seq::<ParentRefView>::empty()) by {
        reveal_with_fuel(Seq::filter, 1);
    }
    assert(parents(out@) =~= Seq::<ParentRefView>::empty());
    while i < parent_refs.len()
        invariant
            i <= parent_refs.len(),
            all == parents(parent_refs@),
            keep == (|p: ParentRefView| owned_ref(p, default_ns@, owned_gateways@)),
            parents(out@) == all.take(i as int).filter(keep),
        decreases parent_refs.len() - i,
    {
        let ghost before = out@;
        proof {
            let s = all.take(i as int);
            assert(all.take(i + 1) =~= s.push(all[i as int]));
            s.lemma_filter_push(all[i as int], keep);
        }
        if check_owned(&parent_refs[i], default_ns, owned_gateways) {
            out.push(parent_refs[i].copy());
            assert(parents(out@) =~= parents(before).push(all[i as int]));
        }
        i = i + 1;
    }
    assert(all.take(i as int) =~= all);
    out
}

/// Some condition of type `t` was observed at `generation` or later.
pub open spec fn observed(c: Seq<ConditionView>, t: Seq<char>, generation: int) -> bool {
    exists|i: int| 0 <= i < c.len() && (#[trigger] c[i]).type_ == t && c[i].gen() >= generation
}

fn is_observed(c: &Vec<Condition>, type_: &str, generation: i64) -> (r: bool)
    ensures
        r == observed(conds(c@), type_@, generation as int),
{
    let mut i: usize = 0;
    while i < c.len()
        invariant
            i <= c.len(),
            forall|j: int|
                0 <= j < i ==> !((#[trigger] conds(c@)[j]).type_ == type_@ && conds(c@)[j].gen()
                    >= generation),
        decreases c.len() - i,
    {
        if str_eq(c[i].type_.as_str(), type_) && c[i].generation_or_zero() >= generation {
            assert(conds(c@)[i as int].type_ == type_@);
            return true;
        }
        i = i + 1;
    }
    false
}

/// The entry is this controller's, points at an owned Gateway, and its `Programmed` and
/// `ResolvedRefs` conditions were observed at `generation`.
pub open spec fn programmed_by(
    p: RouteParentView,
    controller_name: Seq<char>,
    generation: int,
    default_ns: Seq<char>,
    owned: Set<(Seq<char>, Seq<char>)>,
) -> bool {
    &&& p.controller_name == controller_name
    &&& observed(p.conditions, "Programmed"@, generation)
    &&& observed(p.conditions, "ResolvedRefs"@, generation)
    &&& owned_ref(p.parent_ref, default_ns, owned)
}

/// Some parent status of the route is one that `programmed_by` describes.
pub open spec fn route_programmed(
    route: Route,
    controller_name: Seq<char>,
    owned: Set<(Seq<char>, Seq<char>)>,
) -> bool {
    &&& route.parents is Some
    &&& exists|i: int|
        0 <= i < route.parents->0@.len() && programmed_by(
            (#[trigger] route.parents->0@[i])@,
            controller_name,
            route.metadata.gen() as int,
            route_ns(route),
            owned,
        )
}

/// Whether the route already has a status from this controller at its generation.
pub fn http_route_programmed(
    route: &Route,
    controller_name: &str,
    owned_gateways: &KeySet<ObjectKey>,
) -> (r: bool)
    ensures
        r == route_programmed(*route, controller_name@, owned_gateways@),
{
    let default_ns = str_or(&route.metadata.namespace, "default");
    let expected_gen: i64 = route.metadata.generation_or_zero();
    match &route.parents {
        Some(ps) => {
            let mut i: usize = 0;
            while i < ps.len()
                invariant
                    i <= ps.len(),
                    route.parents == Some(*ps),
                    default_ns@ == route_ns(*route),
                    expected_gen == route.metadata.gen(),
                    forall|j: int|
                        0 <= j < i ==> !programmed_by(
                            (#[trigger] ps@[j])@,
                            controller_name@,
                            expected_gen as int,
                            default_ns@,
                            owned_gateways@,
                        ),
                decreases ps.len() - i,
            {
                let p = &ps[i];
                if str_eq(p.controller_name.as_str(), controller_name) && is_observed(
                    &p.conditions,
                    "Programmed",
                    expected_gen,
                ) && is_observed(&p.conditions, "ResolvedRefs", expected_gen) && check_owned(
                    &p.parent_ref,
                    default_ns,
                    owned_gateways,
                ) {
                    assert(programmed_by(
                        route.parents->0@[i as int]@,
                        controller_name@,
                        expected_gen as int,
                        default_ns@,
                        owned_gateways@,
                    ));
                    return true;
                }
                i = i + 1;
            }
            false
        },
        None => false,
    }
}

/// The truth value as a condition status.
pub open spec fn truth(b: bool) -> Seq<char> {
    if b {
        "True"@
    } else {
        "False"@
    }
}

/// The truth value as a condition status.
pub fn truth_str(b: bool) -> (r: &'static str)
    ensures
        r@ == truth(b),
{
    if b {
        "True"
    } else {
        "False"
    }
}

/// The status entry for one parent.
pub open spec fn parent_status(
    p: ParentRefView,
    h: RouteParentHealth,
    controller_name: Seq<char>,
    generation: i64,
    now: Seq<char>,
) -> RouteParentView {
    RouteParentView {
        controller_name,
        parent_ref: p,
        conditions: seq![
            condition("Accepted"@, truth(h.accepted), h.accepted_reason@, ""@, generation, now),
            condition(
                "Programmed"@,
                truth(h.accepted),
                if h.accepted {
                    "Programmed"@
                } else {
                    h.accepted_reason@
                },
                ""@,
                generation,
                now,
            ),
            condition(
                "ResolvedRefs"@,
                truth(h.resolved_refs),
                h.resolved_refs_reason@,
                ""@,
                generation,
                now,
            ),
        ],
    }
}

/// The key under which the health of the route with the parent `p` is recorded.
pub open spec fn parent_key(ns: Seq<char>, name: Seq<char>, p: ParentRefView) -> (
    Seq<char>,
    Seq<char>,
    Seq<char>,
    Seq<char>,
    Seq<char>,
) {
    (
        ns,
        name,
        match p.namespace {
            Some(n) => n,
            None => ns,
        },
        p.name,
        match p.section_name {
            Some(s) => s,
            None => ""@,
        },
    )
}

/// The health of the route with the parent `p`; the fallback where none is recorded.
pub open spec fn health_for(
    health: Map<(Seq<char>, Seq<char>, Seq<char>, Seq<char>, Seq<char>), RouteParentHealth>,
    fallback: RouteParentHealth,
    ns: Seq<char>,
    name: Seq<char>,
    p: ParentRefView,
) -> RouteParentHealth {
    let k = parent_key(ns, name, p);
    if health.contains_key(k) {
        health[k]
    } else {
        fallback
    }
}

/// What is known about routes and their parents.
pub struct RouteFacts {
    /// The Gateways that this controller owns.
    pub owned_gateways: KeySet<ObjectKey>,
    /// The recorded health.
    pub health: Table<RouteParentKey, RouteParentHealth>,
    /// The health of a route for which nothing is recorded.
    pub fallback: RouteParentHealth,
}

/// The parents that get a status entry.
pub open spec fn kept_parents(route: Route, facts: RouteFacts) -> Seq<ParentRefView> {
    match route.parent_refs {
        Some(refs) => parents(refs@).filter(
            |p: ParentRefView| owned_ref(p, route_ns(route), facts.owned_gateways@),
        ),
        None => Seq::empty(),
    }
}

/// The status entries of the route.
pub open spec fn desired_parents(
    route: Route,
    controller_name: Seq<char>,
    facts: RouteFacts,
    generation: i64,
    now: Seq<char>,
) -> Seq<RouteParentView> {
    let kept = kept_parents(route, facts);
    let name = text_or(route.metadata.name, ""@);
    Seq::new(
        kept.len(),
        |i: int|
            parent_status(
                kept[i],
                health_for(facts.health@, facts.fallback, route_ns(route), name, kept[i]),
                controller_name,
                generation,
                now,
            ),
    )
}

fn make_parent_status(
    p: &ParentRef,
    h: &RouteParentHealth,
    controller_name: &str,
    generation: i64,
    now: &str,
) -> (r: RouteParentStatus)
    ensures
        r@ == parent_status(p@, *h, controller_name@, generation, now@),
{
    let prog_reason: &str = if h.accepted {
        "Programmed"
    } else {
        h.accepted_reason.as_str()
    };
    let mut c: Vec<Condition> = Vec::new();
    c.push(
        make_condition(
            "Accepted",
            truth_str(h.accepted),
            h.accepted_reason.as_str(),
            "",
            generation,
            now,
        ),
    );
    c.push(
        make_condition("Programmed", truth_str(h.accepted), prog_reason, "", generation, now),
    );
    c.push(
        make_condition(
            "ResolvedRefs",
            truth_str(h.resolved_refs),
            h.resolved_refs_reason.as_str(),
            "",
            generation,
            now,
        ),
    );
    assert(conds(c@) =~= parent_status(p@, *h, controller_name@, generation, now@).conditions);
    RouteParentStatus {
        controller_name: controller_name.to_owned(),
        parent_ref: p.copy(),
        conditions: c,
    }
}

fn parent_statuses(
    route: &Route,
    owned_refs: &Vec<ParentRef>,
    controller_name: &str,
    facts: &RouteFacts,
    generation: i64,
    now: &str,
) -> (r: Vec<RouteParentStatus>)
    requires
        parents(owned_refs@) == kept_parents(*route, *facts),
    ensures
        parent_views(r@) == desired_parents(*route, controller_name@, *facts, generation, now@),
{
    let ns = str_or(&route.metadata.namespace, "default");
    let name = str_or(&route.metadata.name, "");
    let ghost want = desired_parents(*route, controller_name@, *facts, generation, now@);
    let mut out: Vec<RouteParentStatus> = Vec::new();
    let mut i: usize = 0;
    while i < owned_refs.len()
        invariant
            i <= owned_refs.len(),
            out.len() == i,
            parents(owned_refs@) == kept_parents(*route, *facts),
            ns@ == route_ns(*route),
            name@ == text_or(route.metadata.name, ""@),
            want == desired_parents(*route, controller_name@, *facts, generation, now@),
            forall|j: int| 0 <= j < i ==> (#[trigger] out@[j])@ == want[j],
        decreases owned_refs.len() - i,
    {
        let p = &owned_refs[i];
        assert(parents(owned_refs@)[i as int] == p@);
        let key = RouteParentKey {
            route_ns: ns.to_owned(),
            route_name: name.to_owned(),
            gateway_ns: str_or(&p.namespace, ns).to_owned(),
            gateway_name: p.name.clone(),
            section: str_or(&p.section_name, "").to_owned(),
        };
        assert(key@ == parent_key(ns@, name@, p@));
        let h: &RouteParentHealth = match facts.health.get(&key) {
            Some(h) => h,
            None => &facts.fallback,
        };
        out.push(make_parent_status(p, h, controller_name, generation, now));
        i = i + 1;
    }
    assert(parent_views(out@) =~= want);
    out
}

/// A parent reference in JSON, without what it leaves out.
pub open spec fn parent_ref_json(p: ParentRefView) -> JsonView {
    let a = match p.group {
        Some(g) => Seq::empty().push(("group"@, JsonView::Str(g))),
        None => Seq::empty(),
    };
    let b = match p.kind {
        Some(k) => a.push(("kind"@, JsonView::Str(k))),
        None => a,
    };
    let c = b.push(("name"@, JsonView::Str(p.name)));
    let d = match p.namespace {
        Some(n) => c.push(("namespace"@, JsonView::Str(n))),
        None => c,
    };
    let e = match p.port {
        Some(n) => d.push(("port"@, JsonView::Int(n as int))),
        None => d,
    };
    JsonView::Obj(
        match p.section_name {
            Some(s) => e.push(("sectionName"@, JsonView::Str(s))),
            None => e,
        },
    )
}

impl ParentRef {
    /// The reference in JSON.
    pub fn to_json(&self) -> (r: Json)
        ensures
            r@ == parent_ref_json(self@),
    {
        let o = match &self.group {
            Some(g) => Object::new().with("group", text(g.as_str())),
            None => Object::new(),
        };
        let o = match &self.kind {
            Some(k) => o.with("kind", text(k.as_str())),
            None => o,
        };
        let o = o.with("name", text(self.name.as_str()));
        let o = match &self.namespace {
            Some(n) => o.with("namespace", text(n.as_str())),
            None => o,
        };
        let o = match self.port {
            Some(n) => o.with("port", number(n as i64)),
            None => o,
        };
        let o = match &self.section_name {
            Some(s) => o.with("sectionName", text(s.as_str())),
            None => o,
        };
        let ghost fields = o@;
        let r = o.done();
        assert(parent_ref_json(self@)->Obj_0 =~= fields);
        r
    }
}

/// A parent status in JSON.
pub open spec fn parent_json(p: RouteParentView) -> JsonView {
    JsonView::Obj(
        seq![
            ("conditions"@, conditions_json(p.conditions)),
            ("controllerName"@, JsonView::Str(p.controller_name)),
            ("parentRef"@, parent_ref_json(p.parent_ref)),
        ],
    )
}

/// The patch of a route's status in JSON.
pub open spec fn route_patch_json(p: Seq<RouteParentView>) -> JsonView {
    JsonView::Obj(
        seq![
            (
                "status"@,
                JsonView::Obj(
                    seq![
                        (
                            "parents"@,
                            JsonView::Arr(Seq::new(p.len(), |i: int| parent_json(p[i]))),
                        ),
                    ],
                ),
            ),
        ],
    )
}

fn route_patch(p: &Vec<RouteParentStatus>) -> (r: Json)
    ensures
        r@ == route_patch_json(parent_views(p@)),
{
    let mut out: Vec<Json> = Vec::new();
    let mut i: usize = 0;
    while i < p.len()
        invariant
            i <= p.len(),
            out.len() == i,
            forall|j: int| 0 <= j < i ==> (#[trigger] out@[j])@ == parent_json(p@[j]@),
        decreases p.len() - i,
    {
        let o = Object::new().with("conditions", conditions_to_json(&p[i].conditions)).with(
            "controllerName",
            text(p[i].controller_name.as_str()),
        ).with("parentRef", p[i].parent_ref.to_json());
        let ghost fields = o@;
        let j = o.done();
        assert(parent_json(p@[i as int]@)->Obj_0 =~= fields);
        out.push(j);
        i = i + 1;
    }
    let ghost v = parent_views(p@);
    assert(items(out@) =~= Seq::new(v.len(), |i: int| parent_json(v[i])));
    let status = Object::new().with("parents", arr(out));
    Object::new().with("status", status.done()).done()
}

/// The write that an HTTP route calls for: none for a route without a name or without an owned
/// parent. A route without a generation counts as generation zero.
pub open spec fn http_write(
    route: Route,
    controller_name: Seq<char>,
    facts: RouteFacts,
    now: Seq<char>,
) -> Option<WriteView> {
    if route.metadata.name is None || kept_parents(route, facts).len() == 0 {
        None
    } else {
        Some(
            write_to(
                route.metadata,
                route_patch_json(
                    desired_parents(route, controller_name, facts, route.metadata.gen(), now),
                ),
            ),
        )
    }
}

/// The write that an HTTP route calls for.
pub fn mark_http_route_programmed(
    route: &Route,
    controller_name: &str,
    facts: &RouteFacts,
    now: &str,
) -> (r: Option<StatusWrite>)
    ensures
        opt_write(r) == http_write(*route, controller_name@, *facts, now@),
{
    if route.metadata.name.is_none() {
        return None;
    }
    let ns = str_or(&route.metadata.namespace, "default");
    match &route.parent_refs {
        Some(refs) => {
            let owned_refs = filter_owned_parent_refs(refs, ns, &facts.owned_gateways);
            assert(parents(owned_refs@) == kept_parents(*route, *facts));
            if owned_refs.len() == 0 {
                assert(kept_parents(*route, *facts).len() == 0);
                return None;
            }
            assert(kept_parents(*route, *facts).len() > 0);
            let generation: i64 = route.metadata.generation_or_zero();
            let entries = parent_statuses(
                route,
                &owned_refs,
                controller_name,
                facts,
                generation,
                now,
            );
            Some(write_status(&route.metadata, route_patch(&entries)))
        },
        None => None,
    }
}

/// Two conditions agree in all but the time of the last change.
pub open spec fn same_condition(a: ConditionView, b: ConditionView) -> bool {
    &&& a.type_ == b.type_
    &&& a.status == b.status
    &&& a.reason == b.reason
    &&& a.message == b.message
    &&& a.observed_generation == b.observed_generation
}

/// Some condition in `e` agrees with `c`.
pub open spec fn has_condition_like(c: ConditionView, e: Seq<ConditionView>) -> bool {
    exists|j: int| 0 <= j < e.len() && same_condition(c, #[trigger] e[j])
}

/// There are as many existing conditions as desired ones, and each desired one has its like.
pub open spec fn conditions_alike(d: Seq<ConditionView>, e: Seq<ConditionView>) -> bool {
    &&& d.len() == e.len()
    &&& forall|i: int| 0 <= i < d.len() ==> has_condition_like(#[trigger] d[i], e)
}

fn equal_conditions(a: &Condition, b: &Condition) -> (r: bool)
    ensures
        r == same_condition(a@, b@),
{
    let generation_ok = match (a.observed_generation, b.observed_generation) {
        (Some(x), Some(y)) => x == y,
        (None, None) => true,
        _ => false,
    };
    str_eq(a.type_.as_str(), b.type_.as_str()) && str_eq(a.status.as_str(), b.status.as_str())
        && str_eq(a.reason.as_str(), b.reason.as_str()) && str_eq(
        a.message.as_str(),
        b.message.as_str(),
    ) && generation_ok
}

/// Whether each desired condition is already there, and no others.
pub fn conditions_match(desired: &Vec<Condition>, existing: &Vec<Condition>) -> (r: bool)
    ensures
        r == conditions_alike(conds(desired@), conds(existing@)),
{
    let ghost d = conds(desired@);
    let ghost e = conds(existing@);
    if desired.len() != existing.len() {
        return false;
    }
    let mut i: usize = 0;
    while i < desired.len()
        invariant
            i <= desired.len(),
            desired.len() == existing.len(),
            d == conds(desired@),
            e == conds(existing@),
            forall|k: int| 0 <= k < i ==> has_condition_like(#[trigger] d[k], e),
        decreases desired.len() - i,
    {
        let mut found = false;
        let mut k: usize = 0;
        while k < existing.len()
            invariant
                i < desired.len(),
                k <= existing.len(),
                d == conds(desired@),
                e == conds(existing@),
                found ==> has_condition_like(d[i as int], e),
                !found ==> forall|j: int|
                    0 <= j < k ==> !same_condition(d[i as int], #[trigger] e[j]),
            decreases existing.len() - k,
        {
            if equal_conditions(&desired[i], &existing[k]) {
                assert(same_condition(d[i as int], e[k as int]));
                found = true;
            }
            k = k + 1;
        }
        if !found {
            assert(!has_condition_like(d[i as int], e));
            return false;
        }
        i = i + 1;
    }
    true
}

/// Whether two parent references are equal.
pub fn parent_ref_eq(a: &ParentRef, b: &ParentRef) -> (r: bool)
    ensures
        r == (a@ == b@),
{
    let port_ok = match (a.port, b.port) {
        (Some(x), Some(y)) => x == y,
        (None, None) => true,
        _ => false,
    };
    str_eq(a.name.as_str(), b.name.as_str()) && opt_eq(&a.namespace, &b.namespace) && opt_eq(
        &a.group,
        &b.group,
    ) && opt_eq(&a.kind, &b.kind) && port_ok && opt_eq(&a.section_name, &b.section_name)
}

/// An existing entry is as good as the desired one.
pub open spec fn parent_alike(d: RouteParentView, e: RouteParentView) -> bool {
    &&& e.controller_name == d.controller_name
    &&& e.parent_ref == d.parent_ref
    &&& conditions_alike(d.conditions, e.conditions)
}

/// Some entry in `e` is as good as `p`.
pub open spec fn has_parent_like(p: RouteParentView, e: Seq<RouteParentView>) -> bool {
    exists|j: int| 0 <= j < e.len() && parent_alike(p, #[trigger] e[j])
}

/// There are as many existing entries as desired ones, and each desired one has its like; where
/// the route has no status yet, nothing is desired.
pub open spec fn unchanged(d: Seq<RouteParentView>, e: Option<Seq<RouteParentView>>) -> bool {
    match e {
        Some(x) => {
            &&& d.len() == x.len()
            &&& forall|i: int| 0 <= i < d.len() ==> has_parent_like(#[trigger] d[i], x)
        },
        None => d.len() == 0,
    }
}

/// What an optional list of parent statuses holds.
pub open spec fn opt_parents(v: Option<Vec<RouteParentStatus>>) -> Option<Seq<RouteParentView>> {
    match v {
        Some(p) => Some(parent_views(p@)),
        None => None,
    }
}

/// Whether the desired entries are already there, and no others.
pub fn route_status_unchanged(
    desired: &Vec<RouteParentStatus>,
    existing: &Option<Vec<RouteParentStatus>>,
) -> (r: bool)
    ensures
        r == unchanged(parent_views(desired@), opt_parents(*existing)),
{
    match existing {
        None => desired.len() == 0,
        Some(old_entries) => {
            let ghost d = parent_views(desired@);
            let ghost e = parent_views(old_entries@);
            if desired.len() != old_entries.len() {
                return false;
            }
            let mut i: usize = 0;
            while i < desired.len()
                invariant
                    i <= desired.len(),
                    desired.len() == old_entries.len(),
                    d == parent_views(desired@),
                    e == parent_views(old_entries@),
                    opt_parents(*existing) == Some(e),
                    forall|k: int| 0 <= k < i ==> has_parent_like(#[trigger] d[k], e),
                decreases desired.len() - i,
            {
                let mut found = false;
                let mut k: usize = 0;
                while k < old_entries.len()
                    invariant
                        i < desired.len(),
                        k <= old_entries.len(),
                        d == parent_views(desired@),
                        e == parent_views(old_entries@),
                        found ==> has_parent_like(d[i as int], e),
                        !found ==> forall|j: int|
                            0 <= j < k ==> !parent_alike(d[i as int], #[trigger] e[j]),
                    decreases old_entries.len() - k,
                {
                    let x = &old_entries[k];
                    let y = &desired[i];
                    assert(e[k as int] == x@);
                    assert(d[i as int] == y@);
                    if str_eq(x.controller_name.as_str(), y.controller_name.as_str())
                        && parent_ref_eq(&x.parent_ref, &y.parent_ref) && conditions_match(
                        &y.conditions,
                        &x.conditions,
                    ) {
                        assert(parent_alike(d[i as int], e[k as int]));
                        found = true;
                    }
                    k = k + 1;
                }
                if !found {
                    assert(!has_parent_like(d[i as int], e));
                    return false;
                }
                i = i + 1;
            }
            true
        },
    }
}

/// The write that a route calls for when its queue looks at it: none for a route without a name,
/// without a generation or without an owned parent, and none where the status is already as it
/// should be.
pub open spec fn grpc_write(
    route: Route,
    controller_name: Seq<char>,
    facts: RouteFacts,
    now: Seq<char>,
) -> Option<WriteView> {
    let want = desired_parents(route, controller_name, facts, route.metadata.gen(), now);
    if route.metadata.name is None || route.metadata.generation is None || kept_parents(
        route,
        facts,
    ).len() == 0 || unchanged(want, opt_parents(route.parents)) {
        None
    } else {
        Some(write_to(route.metadata, route_patch_json(want)))
    }
}

/// The write that a gRPC route calls for.
pub fn mark_grpc_route_programmed(
    route: &Route,
    controller_name: &str,
    facts: &RouteFacts,
    now: &str,
) -> (r: Option<StatusWrite>)
    ensures
        opt_write(r) == grpc_write(*route, controller_name@, *facts, now@),
{
    if route.metadata.name.is_none() {
        return None;
    }
    let ns = str_or(&route.metadata.namespace, "default");
    match &route.parent_refs {
        Some(refs) => {
            let owned_refs = filter_owned_parent_refs(refs, ns, &facts.owned_gateways);
            assert(parents(owned_refs@) == kept_parents(*route, *facts));
            if owned_refs.len() == 0 {
                assert(kept_parents(*route, *facts).len() == 0);
                return None;
            }
            assert(kept_parents(*route, *facts).len() > 0);
            let generation: i64 = match route.metadata.generation {
                Some(g) => g,
                None => {
                    return None;
                },
            };
            let entries = parent_statuses(
                route,
                &owned_refs,
                controller_name,
                facts,
                generation,
                now,
            );
            if route_status_unchanged(&entries, &route.parents) {
                return None;
            }
            Some(write_status(&route.metadata, route_patch(&entries)))
        },
        None => None,
    }
}

/// The write that an HTTP route calls for when its queue looks at it. A route that already carries
/// its conditions is left alone, so that looking at it again does not change their times.
pub fn mark_http_route_if_changed(
    route: &Route,
    controller_name: &str,
    facts: &RouteFacts,
    now: &str,
) -> (r: Option<StatusWrite>)
    ensures
        opt_write(r) == grpc_write(*route, controller_name@, *facts, now@),
{
    if route.metadata.generation.is_none() {
        return None;
    }
    match &route.parent_refs {
        Some(refs) => {
            let ns = str_or(&route.metadata.namespace, "default");
            let owned_refs = filter_owned_parent_refs(refs, ns, &facts.owned_gateways);
            assert(parents(owned_refs@) == kept_parents(*route, *facts));
            let entries = parent_statuses(
                route,
                &owned_refs,
                controller_name,
                facts,
                route.metadata.generation_or_zero(),
                now,
            );
            if route_status_unchanged(&entries, &route.parents) {
                return None;
            }
        },
        None => {},
    }
    mark_http_route_programmed(route, controller_name, facts, now)
}

/// Where the queue writes the status of a route that has a generation, it writes what is written
/// without looking at the status that is there.
pub proof fn skipping_changes_no_write(
    route: Route,
    controller_name: Seq<char>,
    facts: RouteFacts,
    now: Seq<char>,
)
    ensures
        grpc_write(route, controller_name, facts, now) is Some ==> grpc_write(
            route,
            controller_name,
            facts,
            now,
        ) == http_write(route, controller_name, facts, now),
{
}

/// Once the status of a route has been written, its queue does not write it again, however much
/// time passes.
pub proof fn grpc_route_write_settles(
    route: Route,
    controller_name: Seq<char>,
    facts: RouteFacts,
    now: Seq<char>,
    later: Seq<char>,
)
    requires
        opt_parents(route.parents) == Some(
            desired_parents(route, controller_name, facts, route.metadata.gen(), now),
        ),
    ensures
        grpc_write(route, controller_name, facts, later) is None,
{
    let d = desired_parents(route, controller_name, facts, route.metadata.gen(), later);
    let e = desired_parents(route, controller_name, facts, route.metadata.gen(), now);
    assert forall|i: int| 0 <= i < d.len() implies has_parent_like(#[trigger] d[i], e) by {
        let x = d[i].conditions;
        let y = e[i].conditions;
        assert forall|k: int| 0 <= k < x.len() implies has_condition_like(#[trigger] x[k], y) by {
            assert(same_condition(x[k], y[k]));
        }
        assert(parent_alike(d[i], e[i]));
    }
}

/// A route whose status was just written counts as programmed, provided that it has an owned
/// parent.
pub proof fn written_http_route_counts_as_programmed(
    route: Route,
    controller_name: Seq<char>,
    facts: RouteFacts,
    now: Seq<char>,
)
    requires
        route.parents is Some,
        parent_views(route.parents->0@) == desired_parents(
            route,
            controller_name,
            facts,
            route.metadata.gen(),
            now,
        ),
        kept_parents(route, facts).len() > 0,
    ensures
        route_programmed(route, controller_name, facts.owned_gateways@),
{
    let p = parent_views(route.parents->0@);
    let keep = |p: ParentRefView| owned_ref(p, route_ns(route), facts.owned_gateways@);
    let kept = kept_parents(route, facts);
    parents(route.parent_refs->0@).lemma_filter_pred(keep, 0);
    assert(keep(kept[0]));
    assert(p.len() == kept.len());
    assert(p[0].parent_ref == kept[0]);
    assert(p[0].conditions[1].type_ == "Programmed"@);
    assert(p[0].conditions[2].type_ == "ResolvedRefs"@);
    assert(p[0] == route.parents->0@[0]@);
    assert(programmed_by(
        route.parents->0@[0]@,
        controller_name,
        route.metadata.gen() as int,
        route_ns(route),
        facts.owned_gateways@,
    ));
}

} // verus!
