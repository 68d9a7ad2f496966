//! The status of policies: one entry for each object that a policy bears on.

use vstd::prelude::*;

use crate::backend_tls::{BackendTlsPolicy, HealthView, PolicyHealthOutcome, PolicyTargetRef};
use crate::conditions::{
    condition, conditions_json, conditions_to_json, conds, make_condition, Condition,
    ConditionView, GW_GROUP,
};
use crate::json::{arr, items, text, Json, JsonView, Object};
use crate::resources::{str_or, text_or, ObjectKey, ObjectMeta, ParentRef, ParentRefView};
use crate::route_status::{parent_ref_json, truth, truth_str};
use crate::table::Table;
use crate::text::{opt_eq, str_eq};
use crate::write::{opt_write, write_status, write_to, StatusWrite, WriteView};

verus! {

/// The instant from which time is counted.
pub const EPOCH: &'static str = "1970-01-01T00:00:00Z";

/// The status of a policy with respect to one object that it bears on.
#[derive(Debug, Clone, Default, PartialEq, Eq)]
pub struct AncestorStatus {
    /// The object.
    pub ancestor_ref: ParentRef,
    /// The controller that wrote it.
    pub controller_name: String,
    /// The conditions.
    pub conditions: Vec<Condition>,
}

/// What an ancestor status holds.
#[verifier::ext_equal]
pub struct AncestorView {
    /// The object.
    pub ancestor_ref: ParentRefView,
    /// The controller that wrote it.
    pub controller_name: Seq<char>,
    /// The conditions.
    pub conditions: Seq<ConditionView>,
}

impl View for AncestorStatus {
    type V = AncestorView;

    open spec fn view(&self) -> AncestorView {
        AncestorView {
            ancestor_ref: self.ancestor_ref@,
            controller_name: self.controller_name@,
            conditions: conds(self.conditions@),
        }
    }
}

/// What a list of ancestor statuses holds.
pub open spec fn ancestor_views(v: Seq<AncestorStatus>) -> Seq<AncestorView> {
    Seq::new(v.len(), |i: int| v[i]@)
}

/// What a list of keys holds.
pub open spec fn key_views(v: Seq<ObjectKey>) -> Seq<(Seq<char>, Seq<char>)> {
    Seq::new(v.len(), |i: int| v[i]@)
}

/// The reference to a Gateway.
pub open spec fn gateway_ref(k: (Seq<char>, Seq<char>)) -> ParentRefView {
    ParentRefView {
        group: Some(GW_GROUP@),
        kind: Some("Gateway"@),
        namespace: Some(k.0),
        name: k.1,
        section_name: None,
        port: None,
    }
}

fn refer_to_gateway(ns: &str, name: &str) -> (r: ParentRef)
    ensures
        r@ == gateway_ref((ns@, name@)),
{
    ParentRef {
        group: Some(GW_GROUP.to_owned()),
        kind: Some("Gateway".to_owned()),
        namespace: Some(ns.to_owned()),
        name: name.to_owned(),
        section_name: None,
        port: None,
    }
}

/// A `BackendTLSPolicy` as its status tells it: its outcome, where there is one, and the Gateways
/// that it bears on.
pub struct BackendTlsPolicyAncestorHealth {
    /// The outcome.
    pub outcome: Option<PolicyHealthOutcome>,
    /// The Gateways.
    pub gateway_keys: Vec<ObjectKey>,
}

/// `Accepted` and `ResolvedRefs` of a policy.
pub open spec fn policy_conditions(h: HealthView, generation: i64, now: Seq<char>) -> Seq<
    ConditionView,
> {
    seq![
        condition(
            "Accepted"@,
            truth(h.accepted),
            h.accepted_reason,
            h.accepted_message,
            generation,
            now,
        ),
        condition(
            "ResolvedRefs"@,
            truth(h.resolved_refs),
            h.resolved_refs_reason,
            h.resolved_refs_message,
            generation,
            now,
        ),
    ]
}

/// The entries that the policy's status should have: one for each Gateway; none where there is no
/// outcome.
pub open spec fn desired_ancestors(
    generation: i64,
    health: BackendTlsPolicyAncestorHealth,
    controller_name: Seq<char>,
    now: Seq<char>,
) -> Seq<AncestorView> {
    match health.outcome {
        None => Seq::empty(),
        Some(o) => Seq::new(
            health.gateway_keys@.len(),
            |i: int|
                AncestorView {
                    ancestor_ref: gateway_ref(health.gateway_keys@[i]@),
                    controller_name,
                    conditions: policy_conditions(o@, generation, now),
                },
        ),
    }
}

fn outcome_conditions(o: &PolicyHealthOutcome, generation: i64, now: &str) -> (r: Vec<Condition>)
    ensures
        conds(r@) == policy_conditions(o@, generation, now@),
{
    let mut c: Vec<Condition> = Vec::new();
    c.push(
        make_condition(
            "Accepted",
            truth_str(o.accepted),
            o.accepted_reason,
            o.accepted_message.as_str(),
            generation,
            now,
        ),
    );
    c.push(
        make_condition(
            "ResolvedRefs",
            truth_str(o.resolved_refs),
            o.resolved_refs_reason,
            o.resolved_refs_message.as_str(),
            generation,
            now,
        ),
    );
    assert(conds(c@) =~= policy_conditions(o@, generation, now@));
    c
}

/// The entries that the policy's status should have. Without a time the epoch stands in.
pub fn build_desired_ancestors(
    policy: &BackendTlsPolicy,
    health: &BackendTlsPolicyAncestorHealth,
    controller_name: &str,
    now: Option<&str>,
) -> (r: Vec<AncestorStatus>)
    ensures
        ancestor_views(r@) == desired_ancestors(
            policy.metadata.gen(),
            *health,
            controller_name@,
            match now {
                Some(t) => t@,
                None => EPOCH@,
            },
        ),
{
    let generation: i64 = policy.metadata.generation_or_zero();
    let time: &str = match now {
        Some(t) => t,
        None => EPOCH,
    };
    let ghost want = desired_ancestors(generation, *health, controller_name@, time@);
    let mut out: Vec<AncestorStatus> = Vec::new();
    match &health.outcome {
        None => {
            assert(ancestor_views(out@) =~= want);
        },
        Some(o) => {
            let mut i: usize = 0;
            while i < health.gateway_keys.len()
                invariant
                    i <= health.gateway_keys.len(),
                    out.len() == i,
                    health.outcome == Some(*o),
                    want == desired_ancestors(generation, *health, controller_name@, time@),
                    forall|j: int| 0 <= j < i ==> (#[trigger] out@[j])@ == want[j],
                decreases health.gateway_keys.len() - i,
            {
                let k = &health.gateway_keys[i];
                let entry = AncestorStatus {
                    ancestor_ref: refer_to_gateway(k.ns.as_str(), k.name.as_str()),
                    controller_name: controller_name.to_owned(),
                    conditions: outcome_conditions(o, generation, time),
                };
                assert(entry@ =~= want[i as int]);
                out.push(entry);
                i = i + 1;
            }
            assert(ancestor_views(out@) =~= want);
        },
    }
    out
}

/// The references differ in what names the object.
pub open spec fn refs_differ(a: ParentRefView, b: ParentRefView) -> bool {
    a.name != b.name || a.namespace != b.namespace || a.group != b.group || a.kind != b.kind
}

/// Whether two references differ in what names the object.
pub fn ancestor_ref_differs(a: &ParentRef, b: &ParentRef) -> (r: bool)
    ensures
        r == refs_differ(a@, b@),
{
    !str_eq(a.name.as_str(), b.name.as_str()) || !opt_eq(&a.namespace, &b.namespace) || !opt_eq(
        &a.group,
        &b.group,
    ) || !opt_eq(&a.kind, &b.kind)
}

/// Two conditions say the same, apart from the message and the time.
pub open spec fn says_the_same(w: ConditionView, h: ConditionView) -> bool {
    &&& w.type_ == h.type_
    &&& w.status == h.status
    &&& w.reason == h.reason
    &&& w.observed_generation == h.observed_generation
}

/// The conditions are not, one by one, the same.
pub open spec fn lists_differ(want: Seq<ConditionView>, have: Seq<ConditionView>) -> bool {
    ||| want.len() != have.len()
    ||| exists|i: int| 0 <= i < want.len() && !says_the_same(#[trigger] want[i], have[i])
}

/// Whether the conditions are not, one by one, the same.
pub fn conditions_differ(want: &Vec<Condition>, have: &Vec<Condition>) -> (r: bool)
    ensures
        r == lists_differ(conds(want@), conds(have@)),
{
    if want.len() != have.len() {
        return true;
    }
    let ghost a = conds(want@);
    let ghost b = conds(have@);
    let mut i: usize = 0;
    while i < want.len()
        invariant
            i <= want.len(),
            want.len() == have.len(),
            a == conds(want@),
            b == conds(have@),
            forall|j: int| 0 <= j < i ==> says_the_same(#[trigger] a[j], b[j]),
        decreases want.len() - i,
    {
        let w = &want[i];
        let h = &have[i];
        assert(a[i as int] == w@);
        assert(b[i as int] == h@);
        let same_generation = match (w.observed_generation, h.observed_generation) {
            (Some(x), Some(y)) => x == y,
            (None, None) => true,
            _ => false,
        };
        if !str_eq(w.type_.as_str(), h.type_.as_str()) || !str_eq(
            w.status.as_str(),
            h.status.as_str(),
        ) || !str_eq(w.reason.as_str(), h.reason.as_str()) || !same_generation {
            assert(!says_the_same(a[i as int], b[i as int]));
            return true;
        }
        i = i + 1;
    }
    false
}

/// An entry is not what it should be.
pub open spec fn entry_differs(d: AncestorView, a: AncestorView) -> bool {
    ||| d.controller_name != a.controller_name
    ||| refs_differ(d.ancestor_ref, a.ancestor_ref)
    ||| lists_differ(d.conditions, a.conditions)
}

/// The entries are not, one by one, what they should be.
pub open spec fn ancestors_differ(d: Seq<AncestorView>, a: Seq<AncestorView>) -> bool {
    ||| d.len() != a.len()
    ||| exists|i: int| 0 <= i < d.len() && entry_differs(#[trigger] d[i], a[i])
}

/// The entries that the status has; none where there is no status.
pub open spec fn live_ancestors(p: BackendTlsPolicy) -> Seq<AncestorView> {
    match p.ancestors {
        Some(v) => ancestor_views(v@),
        None => Seq::empty(),
    }
}

/// Whether the status of the policy already is what it should be, so that the patch can be
/// skipped. The times of the conditions do not count, nor do their messages.
pub fn policy_needs_status_patch(
    policy: &BackendTlsPolicy,
    health: &BackendTlsPolicyAncestorHealth,
    controller_name: &str,
) -> (r: bool)
    ensures
        r == !ancestors_differ(
            desired_ancestors(policy.metadata.gen(), *health, controller_name@, EPOCH@),
            live_ancestors(*policy),
        ),
{
    let desired = build_desired_ancestors(policy, health, controller_name, None);
    let none: Vec<AncestorStatus> = Vec::new();
    let actual: &Vec<AncestorStatus> = match &policy.ancestors {
        Some(v) => v,
        None => &none,
    };
    let ghost d = ancestor_views(desired@);
    let ghost a = ancestor_views(actual@);
    assert(a =~= live_ancestors(*policy));
    if desired.len() != actual.len() {
        return false;
    }
    let mut i: usize = 0;
    while i < desired.len()
        invariant
            i <= desired.len(),
            desired.len() == actual.len(),
            d == ancestor_views(desired@),
            a == ancestor_views(actual@),
            a == live_ancestors(*policy),
            d == desired_ancestors(policy.metadata.gen(), *health, controller_name@, EPOCH@),
            forall|j: int| 0 <= j < i ==> !entry_differs(#[trigger] d[j], a[j]),
        decreases desired.len() - i,
    {
        let x = &desired[i];
        let y = &actual[i];
        assert(d[i as int] == x@);
        assert(a[i as int] == y@);
        if !str_eq(x.controller_name.as_str(), y.controller_name.as_str()) || ancestor_ref_differs(
            &x.ancestor_ref,
            &y.ancestor_ref,
        ) || conditions_differ(&x.conditions, &y.conditions) {
            assert(entry_differs(d[i as int], a[i as int]));
            return false;
        }
        i = i + 1;
    }
    true
}

/// An ancestor status in JSON.
pub open spec fn ancestor_json(a: AncestorView) -> JsonView {
    JsonView::Obj(
        seq![
            ("ancestorRef"@, parent_ref_json(a.ancestor_ref)),
            ("conditions"@, conditions_json(a.conditions)),
            ("controllerName"@, JsonView::Str(a.controller_name)),
        ],
    )
}

/// The patch of a policy's status in JSON.
pub open spec fn ancestors_patch_json(entries: Seq<JsonView>) -> JsonView {
    JsonView::Obj(
        seq![("status"@, JsonView::Obj(seq![("ancestors"@, JsonView::Arr(entries))]))],
    )
}

/// The entries in JSON.
pub open spec fn ancestors_json(a: Seq<AncestorView>) -> Seq<JsonView> {
    Seq::new(a.len(), |i: int| ancestor_json(a[i]))
}

fn ancestors_to_json(v: &Vec<AncestorStatus>) -> (r: Vec<Json>)
    ensures
        items(r@) == ancestors_json(ancestor_views(v@)),
{
    let mut out: Vec<Json> = Vec::new();
    let mut i: usize = 0;
    while i < v.len()
        invariant
            i <= v.len(),
            out.len() == i,
            forall|j: int| 0 <= j < i ==> (#[trigger] out@[j])@ == ancestor_json(v@[j]@),
        decreases v.len() - i,
    {
        let o = Object::new().with("ancestorRef", v[i].ancestor_ref.to_json()).with(
            "conditions",
            conditions_to_json(&v[i].conditions),
        ).with("controllerName", text(v[i].controller_name.as_str()));
        let ghost fields = o@;
        let j = o.done();
        assert(ancestor_json(v@[i as int]@)->Obj_0 =~= fields);
        out.push(j);
        i = i + 1;
    }
    assert(items(out@) =~= ancestors_json(ancestor_views(v@)));
    out
}

fn ancestors_patch(entries: Vec<Json>) -> (r: Json)
    ensures
        r@ == ancestors_patch_json(items(entries@)),
{
    let ghost want = ancestors_patch_json(items(entries@));
    let o = Object::new().with("ancestors", arr(entries));
    assert(o@ =~= want->Obj_0[0].1->Obj_0);
    let p = Object::new().with("status", o.done());
    assert(p@ =~= want->Obj_0);
    p.done()
}

/// The patch of the policy's status.
pub fn build_backend_tls_policy_status_patch(
    policy: &BackendTlsPolicy,
    health: &BackendTlsPolicyAncestorHealth,
    controller_name: &str,
    now: &str,
) -> (r: Json)
    ensures
        r@ == ancestors_patch_json(
            ancestors_json(
                desired_ancestors(policy.metadata.gen(), *health, controller_name@, now@),
            ),
        ),
{
    let a = build_desired_ancestors(policy, health, controller_name, Some(now));
    ancestors_patch(ancestors_to_json(&a))
}

/// Once the entries have been written, the status of the policy is what it should be.
pub proof fn backend_tls_policy_patch_settles(
    policy: BackendTlsPolicy,
    health: BackendTlsPolicyAncestorHealth,
    controller_name: Seq<char>,
    now: Seq<char>,
)
    requires
        live_ancestors(policy) == desired_ancestors(
            policy.metadata.gen(),
            health,
            controller_name,
            now,
        ),
    ensures
        !ancestors_differ(
            desired_ancestors(policy.metadata.gen(), health, controller_name, EPOCH@),
            live_ancestors(policy),
        ),
{
    let d = desired_ancestors(policy.metadata.gen(), health, controller_name, EPOCH@);
    let a = live_ancestors(policy);
    assert forall|i: int| 0 <= i < d.len() implies !entry_differs(#[trigger] d[i], a[i]) by {
        let w = d[i].conditions;
        let h = a[i].conditions;
        assert forall|k: int| 0 <= k < w.len() implies says_the_same(#[trigger] w[k], h[k]) by {
            assert(k == 0 || k == 1);
        }
    }
}

/// How a `BackendTLSPolicy` stands, and the Gateways that it bears on.
#[derive(Debug, Clone)]
pub struct BackendTlsPolicyStatus {
    /// Whether the policy is accepted.
    pub accepted: bool,
    /// Why.
    pub accepted_reason: String,
    /// Whether its references resolve.
    pub resolved_refs: bool,
    /// Why.
    pub resolved_refs_reason: String,
    /// The Gateways.
    pub ancestors: Vec<ObjectKey>,
}

/// The conditions of one entry, without messages.
pub open spec fn bare_conditions(
    h: BackendTlsPolicyStatus,
    generation: i64,
    now: Seq<char>,
) -> Seq<ConditionView> {
    seq![
        condition("Accepted"@, truth(h.accepted), h.accepted_reason@, ""@, generation, now),
        condition(
            "ResolvedRefs"@,
            truth(h.resolved_refs),
            h.resolved_refs_reason@,
            ""@,
            generation,
            now,
        ),
    ]
}

/// The reference that stands in where no Gateway is known.
pub open spec fn placeholder_ref() -> ParentRefView {
    ParentRefView {
        group: Some(GW_GROUP@),
        kind: Some("Gateway"@),
        namespace: None,
        name: ""@,
        section_name: None,
        port: None,
    }
}

/// One entry for each Gateway; where there is none, a single one with a placeholder, so that a
/// rejection can be seen.
pub open spec fn listed_ancestors(
    h: BackendTlsPolicyStatus,
    controller_name: Seq<char>,
    generation: i64,
    now: Seq<char>,
) -> Seq<AncestorView> {
    let refs = if h.ancestors@.len() == 0 {
        seq![placeholder_ref()]
    } else {
        Seq::new(h.ancestors@.len(), |i: int| gateway_ref(h.ancestors@[i]@))
    };
    Seq::new(
        refs.len(),
        |i: int|
            AncestorView {
                ancestor_ref: refs[i],
                controller_name,
                conditions: bare_conditions(h, generation, now),
            },
    )
}

fn bare_entry(
    h: &BackendTlsPolicyStatus,
    ancestor_ref: ParentRef,
    controller_name: &str,
    generation: i64,
    now: &str,
) -> (r: AncestorStatus)
    ensures
        r@ == (AncestorView {
            ancestor_ref: ancestor_ref@,
            controller_name: controller_name@,
            conditions: bare_conditions(*h, generation, now@),
        }),
{
    let mut c: Vec<Condition> = Vec::new();
    c.push(
        make_condition(
            "Accepted",
            truth_str(h.accepted),
            h.accepted_reason.as_str(),
            "",
            generation,
            now,
        ),
    );
    c.push(
        make_condition(
            "ResolvedRefs",
            truth_str(h.resolved_refs),
            h.resolved_refs_reason.as_str(),
            "",
            generation,
            now,
        ),
    );
    assert(conds(c@) =~= bare_conditions(*h, generation, now@));
    AncestorStatus { ancestor_ref, controller_name: controller_name.to_owned(), conditions: c }
}

/// One entry for each Gateway; where there is none, a single one with a placeholder.
pub fn build_ancestors(
    health: &BackendTlsPolicyStatus,
    controller_name: &str,
    observed_gen: i64,
    now: &str,
) -> (r: Vec<AncestorStatus>)
    ensures
        ancestor_views(r@) == listed_ancestors(*health, controller_name@, observed_gen, now@),
{
    let ghost want = listed_ancestors(*health, controller_name@, observed_gen, now@);
    let mut out: Vec<AncestorStatus> = Vec::new();
    if health.ancestors.len() == 0 {
        let r = ParentRef {
            group: Some(GW_GROUP.to_owned()),
            kind: Some("Gateway".to_owned()),
            namespace: None,
            name: "".to_owned(),
            section_name: None,
            port: None,
        };
        assert(r@ == placeholder_ref());
        out.push(bare_entry(health, r, controller_name, observed_gen, now));
        assert(ancestor_views(out@) =~= want);
        return out;
    }
    let mut i: usize = 0;
    while i < health.ancestors.len()
        invariant
            i <= health.ancestors.len(),
            out.len() == i,
            health.ancestors.len() > 0,
            want == listed_ancestors(*health, controller_name@, observed_gen, now@),
            forall|j: int| 0 <= j < i ==> (#[trigger] out@[j])@ == want[j],
        decreases health.ancestors.len() - i,
    {
        let k = &health.ancestors[i];
        let r = refer_to_gateway(k.ns.as_str(), k.name.as_str());
        out.push(bare_entry(health, r, controller_name, observed_gen, now));
        i = i + 1;
    }
    assert(ancestor_views(out@) =~= want);
    out
}

/// The key under which the status of the object is kept; one without a namespace is in `default`.
pub open spec fn status_key(meta: ObjectMeta) -> (Seq<char>, Seq<char>) {
    (text_or(meta.namespace, "default"@), text_or(meta.name, ""@))
}

/// The write that a `BackendTLSPolicy` calls for: none without a name, a known status or a
/// generation, and none while it is accepted and bears on no Gateway.
pub open spec fn backend_tls_write(
    meta: ObjectMeta,
    controller_name: Seq<char>,
    statuses: Map<(Seq<char>, Seq<char>), BackendTlsPolicyStatus>,
    now: Seq<char>,
) -> Option<WriteView> {
    let h = statuses[status_key(meta)];
    if meta.name is None || !statuses.contains_key(status_key(meta)) || (h.ancestors@.len() == 0
        && h.accepted) || meta.generation is None {
        None
    } else {
        Some(
            write_to(
                meta,
                ancestors_patch_json(
                    ancestors_json(listed_ancestors(h, controller_name, meta.gen(), now)),
                ),
            ),
        )
    }
}

/// The write that a `BackendTLSPolicy` calls for.
pub fn patch_backend_tls_policy_status(
    policy: &BackendTlsPolicy,
    controller_name: &str,
    policy_status: &Table<ObjectKey, BackendTlsPolicyStatus>,
    now: &str,
) -> (r: Option<StatusWrite>)
    ensures
        opt_write(r) == backend_tls_write(
            policy.metadata,
            controller_name@,
            policy_status@,
            now@,
        ),
{
    let meta = &policy.metadata;
    if meta.name.is_none() {
        return None;
    }
    let key = ObjectKey::new(str_or(&meta.namespace, "default"), str_or(&meta.name, ""));
    let health: &BackendTlsPolicyStatus = match policy_status.get(&key) {
        Some(h) => h,
        None => {
            return None;
        },
    };
    if health.ancestors.len() == 0 && health.accepted {
        return None;
    }
    let generation: i64 = match meta.generation {
        Some(g) => g,
        None => {
            return None;
        },
    };
    let a = build_ancestors(health, controller_name, generation, now);
    Some(write_status(meta, ancestors_patch(ancestors_to_json(&a))))
}

/// How a policy that conflicts with others of its kind stands.
#[derive(Debug, Clone, Default)]
pub struct TargetedPolicyStatus {
    /// Whether the policy is accepted.
    pub accepted: bool,
    /// Why.
    pub accepted_reason: String,
    /// Whether another policy has the say.
    pub conflicted: bool,
    /// Why.
    pub conflicted_reason: String,
}

/// A policy that names its targets, and whose status has an entry for each of them.
#[derive(Debug, Clone, Default)]
pub struct TargetedPolicy {
    /// Metadata.
    pub metadata: ObjectMeta,
    /// `spec.targetRefs`.
    pub target_refs: Vec<PolicyTargetRef>,
}

/// The kinds of such policies.
#[derive(Debug, Clone, Copy, PartialEq, Eq, Structural)]
pub enum TargetedKind {
    /// `ClientTrafficPolicy`: Gateways and their listeners.
    ClientTraffic,
    /// `CoxswainBackendPolicy`: Services.
    Backend,
    /// `CoxswainExternalAuth`: Gateways.
    ExternalAuth,
}

/// A target that gets an entry.
pub open spec fn reported(kind: TargetedKind, t: PolicyTargetRef) -> bool {
    match kind {
        TargetedKind::Backend => (t.group@.len() == 0 || t.group@ == "core"@) && t.kind@
            == "Service"@,
        _ => t.group@ == GW_GROUP@ && t.kind@ == "Gateway"@,
    }
}

/// The reference to a target in JSON.
pub open spec fn target_json(kind: TargetedKind, ns: Seq<char>, t: PolicyTargetRef) -> JsonView {
    let head = seq![
        (
            "group"@,
            JsonView::Str(
                if kind == TargetedKind::Backend {
                    ""@
                } else {
                    GW_GROUP@
                },
            ),
        ),
        (
            "kind"@,
            JsonView::Str(
                if kind == TargetedKind::Backend {
                    "Service"@
                } else {
                    "Gateway"@
                },
            ),
        ),
        ("namespace"@, JsonView::Str(ns)),
        ("name"@, JsonView::Str(t.name@)),
    ];
    JsonView::Obj(
        match t.section_name {
            Some(s) => if kind == TargetedKind::ClientTraffic {
                head.push(("sectionName"@, JsonView::Str(s@)))
            } else {
                head
            },
            None => head,
        },
    )
}

/// `Accepted` and `Conflicted` of a policy.
pub open spec fn conflict_conditions(
    h: TargetedPolicyStatus,
    generation: i64,
    now: Seq<char>,
) -> Seq<ConditionView> {
    seq![
        condition("Accepted"@, truth(h.accepted), h.accepted_reason@, ""@, generation, now),
        condition("Conflicted"@, truth(h.conflicted), h.conflicted_reason@, ""@, generation, now),
    ]
}

/// The entry for one target in JSON.
pub open spec fn target_entry(
    kind: TargetedKind,
    h: TargetedPolicyStatus,
    ns: Seq<char>,
    t: PolicyTargetRef,
    controller_name: Seq<char>,
    generation: i64,
    now: Seq<char>,
) -> JsonView {
    JsonView::Obj(
        seq![
            ("ancestorRef"@, target_json(kind, ns, t)),
            ("controllerName"@, JsonView::Str(controller_name)),
            ("conditions"@, conditions_json(conflict_conditions(h, generation, now))),
        ],
    )
}

/// One entry for each target of the right kind, in their order.
pub open spec fn target_entries(
    kind: TargetedKind,
    h: TargetedPolicyStatus,
    ns: Seq<char>,
    targets: Seq<PolicyTargetRef>,
    controller_name: Seq<char>,
    generation: i64,
    now: Seq<char>,
) -> Seq<JsonView> {
    targets.filter(|t: PolicyTargetRef| reported(kind, t)).map_values(
        |t: PolicyTargetRef| target_entry(kind, h, ns, t, controller_name, generation, now),
    )
}

fn is_reported(kind: TargetedKind, t: &PolicyTargetRef) -> (r: bool)
    ensures
        r == reported(kind, *t),
{
    match kind {
        TargetedKind::Backend => (t.group.as_str().is_empty() || str_eq(t.group.as_str(), "core"))
            && str_eq(t.kind.as_str(), "Service"),
        _ => str_eq(t.group.as_str(), GW_GROUP) && str_eq(t.kind.as_str(), "Gateway"),
    }
}

fn make_target_entry(
    kind: TargetedKind,
    h: &TargetedPolicyStatus,
    ns: &str,
    t: &PolicyTargetRef,
    controller_name: &str,
    generation: i64,
    now: &str,
) -> (r: Json)
    ensures
        r@ == target_entry(kind, *h, ns@, *t, controller_name@, generation, now@),
{
    let group: &str = if kind == TargetedKind::Backend {
        ""
    } else {
        GW_GROUP
    };
    let kind_name: &str = if kind == TargetedKind::Backend {
        "Service"
    } else {
        "Gateway"
    };
    let o = Object::new().with("group", text(group)).with("kind", text(kind_name)).with(
        "namespace",
        text(ns),
    ).with("name", text(t.name.as_str()));
    let o = match &t.section_name {
        Some(s) => if kind == TargetedKind::ClientTraffic {
            o.with("sectionName", text(s.as_str()))
        } else {
            o
        },
        None => o,
    };
    assert(o@ =~= target_json(kind, ns@, *t)->Obj_0);
    let mut c: Vec<Condition> = Vec::new();
    c.push(
        make_condition(
            "Accepted",
            truth_str(h.accepted),
            h.accepted_reason.as_str(),
            "",
            generation,
            now,
        ),
    );
    c.push(
        make_condition(
            "Conflicted",
            truth_str(h.conflicted),
            h.conflicted_reason.as_str(),
            "",
            generation,
            now,
        ),
    );
    assert(conds(c@) =~= conflict_conditions(*h, generation, now@));
    let e = Object::new().with("ancestorRef", o.done()).with(
        "controllerName",
        text(controller_name),
    ).with("conditions", conditions_to_json(&c));
    assert(e@ =~= target_entry(
        kind,
        *h,
        ns@,
        *t,
        controller_name@,
        generation,
        now@,
    )->Obj_0);
    e.done()
}

/// One entry for each target of the right kind, in their order.
pub fn build_target_ancestors(
    kind: TargetedKind,
    health: &TargetedPolicyStatus,
    policy: &TargetedPolicy,
    policy_ns: &str,
    controller_name: &str,
    observed_gen: i64,
    now: &str,
) -> (r: Vec<Json>)
    ensures
        items(r@) == target_entries(
            kind,
            *health,
            policy_ns@,
            policy.target_refs@,
            controller_name@,
            observed_gen,
            now@,
        ),
{
    let ghost all = policy.target_refs@;
    let ghost keep = |t: PolicyTargetRef| reported(kind, t);
    let ghost make = |t: PolicyTargetRef|
        target_entry(kind, *health, policy_ns@, t, controller_name@, observed_gen, now@);
    let mut out: Vec<Json> = Vec::new();
    let mut i: usize = 0;
    assert(all.take(0).filter(keep) =~= Seq::<PolicyTargetRef>::empty()) by {
        reveal_with_fuel(Seq::filter, 1);
    }
    assert(items(out@) =~= all.take(0).filter(keep).map_values(make));
    while i < policy.target_refs.len()
        invariant
            i <= policy.target_refs.len(),
            all == policy.target_refs@,
            keep == (|t: PolicyTargetRef| reported(kind, t)),
            make == (|t: PolicyTargetRef|
                target_entry(
                    kind,
                    *health,
                    policy_ns@,
                    t,
                    controller_name@,
                    observed_gen,
                    now@,
                )),
            items(out@) == all.take(i as int).filter(keep).map_values(make),
        decreases policy.target_refs.len() - i,
    {
        let ghost before = out@;
        let ghost s = all.take(i as int);
        proof {
            assert(all.take(i + 1) =~= s.push(all[i as int]));
            s.lemma_filter_push(all[i as int], keep);
        }
        let t = &policy.target_refs[i];
        if is_reported(kind, t) {
            let e = make_target_entry(
                kind,
                health,
                policy_ns,
                t,
                controller_name,
                observed_gen,
                now,
            );
            out.push(e);
            assert(items(out@) =~= items(before).push(make(all[i as int])));
            assert(s.filter(keep).push(all[i as int]).map_values(make) =~= s.filter(
                keep,
            ).map_values(make).push(make(all[i as int])));
        }
        i = i + 1;
    }
    assert(all.take(i as int) =~= all);
    out
}

/// The write that a policy calls for: none without a name, a known status, a generation or a
/// target of the right kind.
pub open spec fn targeted_write(
    kind: TargetedKind,
    policy: TargetedPolicy,
    controller_name: Seq<char>,
    statuses: Map<(Seq<char>, Seq<char>), TargetedPolicyStatus>,
    now: Seq<char>,
) -> Option<WriteView> {
    let meta = policy.metadata;
    let key = status_key(meta);
    let entries = target_entries(
        kind,
        statuses[key],
        key.0,
        policy.target_refs@,
        controller_name,
        meta.gen(),
        now,
    );
    if meta.name is None || !statuses.contains_key(key) || meta.generation is None
        || entries.len() == 0 {
        None
    } else {
        Some(write_to(meta, ancestors_patch_json(entries)))
    }
}

fn patch_targeted(
    kind: TargetedKind,
    policy: &TargetedPolicy,
    controller_name: &str,
    statuses: &Table<ObjectKey, TargetedPolicyStatus>,
    now: &str,
) -> (r: Option<StatusWrite>)
    ensures
        opt_write(r) == targeted_write(kind, *policy, controller_name@, statuses@, now@),
{
    let meta = &policy.metadata;
    if meta.name.is_none() {
        return None;
    }
    let ns = str_or(&meta.namespace, "default");
    let key = ObjectKey::new(ns, str_or(&meta.name, ""));
    let health: &TargetedPolicyStatus = match statuses.get(&key) {
        Some(h) => h,
        None => {
            return None;
        },
    };
    let generation: i64 = match meta.generation {
        Some(g) => g,
        None => {
            return None;
        },
    };
    let entries = build_target_ancestors(
        kind,
        health,
        policy,
        ns,
        controller_name,
        generation,
        now,
    );
    let ghost views = items(entries@);
    assert(entries@.len() == views.len());
    if entries.len() == 0 {
        return None;
    }
    Some(write_status(meta, ancestors_patch(entries)))
}

/// The write that a `ClientTrafficPolicy` calls for.
pub fn patch_client_traffic_policy_status(
    policy: &TargetedPolicy,
    controller_name: &str,
    ctp_status: &Table<ObjectKey, TargetedPolicyStatus>,
    now: &str,
) -> (r: Option<StatusWrite>)
    ensures
        opt_write(r) == targeted_write(
            TargetedKind::ClientTraffic,
            *policy,
            controller_name@,
            ctp_status@,
            now@,
        ),
{
    patch_targeted(TargetedKind::ClientTraffic, policy, controller_name, ctp_status, now)
}

/// The write that a `CoxswainBackendPolicy` calls for.
pub fn patch_coxswain_backend_policy_status(
    policy: &TargetedPolicy,
    controller_name: &str,
    cbp_status: &Table<ObjectKey, TargetedPolicyStatus>,
    now: &str,
) -> (r: Option<StatusWrite>)
    ensures
        opt_write(r) == targeted_write(
            TargetedKind::Backend,
            *policy,
            controller_name@,
            cbp_status@,
            now@,
        ),
{
    patch_targeted(TargetedKind::Backend, policy, controller_name, cbp_status, now)
}

/// The write that a `CoxswainExternalAuth` calls for.
pub fn patch_coxswain_external_auth_status(
    policy: &TargetedPolicy,
    controller_name: &str,
    external_auth_status: &Table<ObjectKey, TargetedPolicyStatus>,
    now: &str,
) -> (r: Option<StatusWrite>)
    ensures
        opt_write(r) == targeted_write(
            TargetedKind::ExternalAuth,
            *policy,
            controller_name@,
            external_auth_status@,
            now@,
        ),
{
    patch_targeted(TargetedKind::ExternalAuth, policy, controller_name, external_auth_status, now)
}

} // verus!
