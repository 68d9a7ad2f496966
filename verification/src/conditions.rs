//! Status conditions: how they are built, found and compared.

use vstd::prelude::*;

use crate::json::{
    lemma_member_push, lemma_member_two, member, number, text, Json, JsonView, Object,
};
use crate::resources::{Gateway, GatewayClass, ObjectKey};
use crate::table::KeySet;
use crate::text::str_eq;

verus! {

/// The Gateway API group, which a parent reference without a group belongs to.
pub const GW_GROUP: &'static str = "gateway.networking.k8s.io";

/// A condition in the status of an object.
#[derive(Debug, Clone, Default, PartialEq, Eq)]
pub struct Condition {
    /// Type.
    pub type_: String,
    /// `True`, `False` or `Unknown`.
    pub status: String,
    /// Reason.
    pub reason: String,
    /// Message.
    pub message: String,
    /// The generation that the condition speaks of.
    pub observed_generation: Option<i64>,
    /// When the status last changed.
    pub last_transition_time: String,
}

/// What a condition holds.
#[verifier::ext_equal]
pub struct ConditionView {
    /// Type.
    pub type_: Seq<char>,
    /// `True`, `False` or `Unknown`.
    pub status: Seq<char>,
    /// Reason.
    pub reason: Seq<char>,
    /// Message.
    pub message: Seq<char>,
    /// The generation that the condition speaks of.
    pub observed_generation: Option<i64>,
    /// When the status last changed.
    pub last_transition_time: Seq<char>,
}

impl View for Condition {
    type V = ConditionView;

    open spec fn view(&self) -> ConditionView {
        ConditionView {
            type_: self.type_@,
            status: self.status@,
            reason: self.reason@,
            message: self.message@,
            observed_generation: self.observed_generation,
            last_transition_time: self.last_transition_time@,
        }
    }
}

/// What a list of conditions holds.
pub open spec fn conds(v: Seq<Condition>) -> Seq<ConditionView> {
    Seq::new(v.len(), |i: int| v[i]@)
}

impl ConditionView {
    /// The observed generation, where a condition without one counts as generation zero.
    pub open spec fn gen(self) -> i64 {
        match self.observed_generation {
            Some(g) => g,
            None => 0,
        }
    }
}

impl Condition {
    /// The observed generation, where a condition without one counts as generation zero.
    pub fn generation_or_zero(&self) -> (r: i64)
        ensures
            r == self@.gen(),
    {
        match self.observed_generation {
            Some(g) => g,
            None => 0,
        }
    }

    /// A copy of the condition.
    pub fn copy(&self) -> (r: Self)
        ensures
            r@ == self@,
    {
        Condition {
            type_: self.type_.clone(),
            status: self.status.clone(),
            reason: self.reason.clone(),
            message: self.message.clone(),
            observed_generation: self.observed_generation,
            last_transition_time: self.last_transition_time.clone(),
        }
    }
}

/// The condition that `make_condition` builds.
pub open spec fn condition(
    type_: Seq<char>,
    status: Seq<char>,
    reason: Seq<char>,
    message: Seq<char>,
    generation: i64,
    now: Seq<char>,
) -> ConditionView {
    ConditionView {
        type_,
        status,
        reason,
        message,
        observed_generation: Some(generation),
        last_transition_time: now,
    }
}

/// A condition observed at `generation` and last changed at `now`.
pub fn make_condition(
    type_: &str,
    status: &str,
    reason: &str,
    message: &str,
    generation: i64,
    now: &str,
) -> (r: Condition)
    ensures
        r@ == condition(type_@, status@, reason@, message@, generation, now@),
{
    Condition {
        type_: type_.to_owned(),
        status: status.to_owned(),
        reason: reason.to_owned(),
        message: message.to_owned(),
        observed_generation: Some(generation),
        last_transition_time: now.to_owned(),
    }
}

/// The members of a condition in JSON.
pub open spec fn condition_json(c: ConditionView) -> JsonView {
    let head = seq![
        ("lastTransitionTime"@, JsonView::Str(c.last_transition_time)),
        ("message"@, JsonView::Str(c.message)),
    ];
    let with_generation = match c.observed_generation {
        Some(g) => head.push(("observedGeneration"@, JsonView::Int(g as int))),
        None => head,
    };
    JsonView::Obj(
        with_generation.push(("reason"@, JsonView::Str(c.reason))).push(
            ("status"@, JsonView::Str(c.status)),
        ).push(("type"@, JsonView::Str(c.type_))),
    )
}

/// A list of conditions in JSON.
pub open spec fn conditions_json(c: Seq<ConditionView>) -> JsonView {
    JsonView::Arr(Seq::new(c.len(), |i: int| condition_json(c[i])))
}

impl Condition {
    /// The condition in JSON.
    pub fn to_json(&self) -> (r: Json)
        ensures
            r@ == condition_json(self@),
    {
        let o = Object::new().with("lastTransitionTime", text(self.last_transition_time.as_str()))
            .with("message", text(self.message.as_str()));
        let o = match self.observed_generation {
            Some(g) => o.with("observedGeneration", number(g)),
            None => o,
        };
        let r = o.with("reason", text(self.reason.as_str())).with(
            "status",
            text(self.status.as_str()),
        ).with("type", text(self.type_.as_str())).done();
        assert(r@->Obj_0 =~= condition_json(self@)->Obj_0);
        r
    }
}

/// A list of conditions in JSON.
pub fn conditions_to_json(c: &Vec<Condition>) -> (r: Json)
    ensures
        r@ == conditions_json(conds(c@)),
{
    let mut out: Vec<Json> = Vec::new();
    let mut i: usize = 0;
    while i < c.len()
        invariant
            i <= c.len(),
            out.len() == i,
            forall|j: int| 0 <= j < i ==> (#[trigger] out@[j])@ == condition_json(c@[j]@),
        decreases c.len() - i,
    {
        out.push(c[i].to_json());
        i = i + 1;
    }
    assert(crate::json::items(out@) =~= Seq::new(
        conds(c@).len(),
        |i: int| condition_json(conds(c@)[i]),
    ));
    crate::json::arr(out)
}

/// The first condition of type `t`.
pub open spec fn first_of(c: Seq<ConditionView>, t: Seq<char>) -> Option<ConditionView>
    decreases c.len(),
{
    if c.len() == 0 {
        None
    } else if c[0].type_ == t {
        Some(c[0])
    } else {
        first_of(c.drop_first(), t)
    }
}

/// The first condition of type `t` is the first at which the type occurs.
pub proof fn lemma_first(c: Seq<ConditionView>, t: Seq<char>, i: int)
    requires
        0 <= i <= c.len(),
        forall|j: int| 0 <= j < i ==> (#[trigger] c[j]).type_ != t,
        i < c.len() ==> c[i].type_ == t,
    ensures
        first_of(c, t) == if i < c.len() {
            Some(c[i])
        } else {
            None
        },
    decreases i,
{
    if i > 0 {
        assert(c[0].type_ != t);
        let d = c.drop_first();
        assert(forall|j: int| 0 <= j < d.len() ==> #[trigger] d[j] == c[j + 1]);
        lemma_first(d, t, i - 1);
    }
}

/// A type is found in the front part, or else in the back part.
pub proof fn lemma_first_of_concat(a: Seq<ConditionView>, b: Seq<ConditionView>, t: Seq<char>)
    ensures
        first_of(a + b, t) == match first_of(a, t) {
            Some(c) => Some(c),
            None => first_of(b, t),
        },
    decreases a.len(),
{
    if a.len() == 0 {
        assert(a + b =~= b);
    } else {
        assert((a + b)[0] == a[0]);
        assert((a + b).drop_first() =~= a.drop_first() + b);
        lemma_first_of_concat(a.drop_first(), b, t);
    }
}

/// What is found has the type that was asked for, and stands in the list.
pub proof fn lemma_first_is_member(c: Seq<ConditionView>, t: Seq<char>)
    ensures
        match first_of(c, t) {
            Some(x) => x.type_ == t && c.contains(x),
            None => forall|i: int| 0 <= i < c.len() ==> (#[trigger] c[i]).type_ != t,
        },
    decreases c.len(),
{
    if c.len() > 0 {
        let d = c.drop_first();
        lemma_first_is_member(d, t);
        assert(forall|j: int| 0 < j < c.len() ==> #[trigger] c[j] == d[j - 1]);
        if c[0].type_ == t {
            assert(c.contains(c[0]));
        } else if first_of(d, t) is Some {
            let x = first_of(d, t)->0;
            let k = choose|k: int| 0 <= k < d.len() && d[k] == x;
            assert(c[k + 1] == x);
        }
    }
}

/// The first condition of type `type_`.
pub fn find_condition<'a>(c: &'a [Condition], type_: &str) -> (r: Option<&'a Condition>)
    ensures
        match r {
            Some(x) => first_of(conds(c@), type_@) == Some(x@),
            None => first_of(conds(c@), type_@) is None,
        },
{
    let mut i: usize = 0;
    while i < c.len()
        invariant
            i <= c.len(),
            forall|j: int| 0 <= j < i ==> (#[trigger] conds(c@)[j]).type_ != type_@,
        decreases c.len() - i,
    {
        if str_eq(c[i].type_.as_str(), type_) {
            proof {
                lemma_first(conds(c@), type_@, i as int);
            }
            return Some(&c[i]);
        }
        i = i + 1;
    }
    proof {
        lemma_first(conds(c@), type_@, i as int);
    }
    None
}

/// Some condition of type `t` is `True` and was observed at `min_gen` or later.
pub open spec fn true_at(c: Seq<ConditionView>, t: Seq<char>, min_gen: int) -> bool {
    exists|i: int|
        0 <= i < c.len() && (#[trigger] c[i]).type_ == t && c[i].status == "True"@ && c[i].gen()
            >= min_gen
}

fn any_true_at(c: &[Condition], type_: &str, min_gen: i64) -> (r: bool)
    ensures
        r == true_at(conds(c@), type_@, min_gen as int),
{
    let mut i: usize = 0;
    while i < c.len()
        invariant
            i <= c.len(),
            forall|j: int|
                0 <= j < i ==> !((#[trigger] conds(c@)[j]).type_ == type_@ && conds(c@)[j].status
                    == "True"@ && conds(c@)[j].gen() >= min_gen),
        decreases c.len() - i,
    {
        if str_eq(c[i].type_.as_str(), type_) && str_eq(c[i].status.as_str(), "True")
            && c[i].generation_or_zero() >= min_gen {
            assert(conds(c@)[i as int].type_ == type_@);
            return true;
        }
        i = i + 1;
    }
    false
}

/// Whether a condition of the type is `True` and was observed at `min_gen` or later.
pub fn has_condition_at_gen(conditions: Option<&[Condition]>, type_: &str, min_gen: i64) -> (r:
    bool)
    ensures
        r == match conditions {
            Some(c) => true_at(conds(c@), type_@, min_gen as int),
            None => false,
        },
{
    match conditions {
        Some(c) => any_true_at(c, type_, min_gen),
        None => false,
    }
}

/// Whether a condition of the type is `True` at a generation that is not negative.
pub fn has_condition(conditions: Option<&[Condition]>, type_: &str) -> (r: bool)
    ensures
        r == match conditions {
            Some(c) => true_at(conds(c@), type_@, 0),
            None => false,
        },
{
    has_condition_at_gen(conditions, type_, 0)
}

impl GatewayClass {
    /// The conditions; none where the status has none.
    pub open spec fn conds(&self) -> Seq<ConditionView> {
        match self.status {
            Some(s) => match s.conditions {
                Some(c) => conds(c@),
                None => Seq::empty(),
            },
            None => Seq::empty(),
        }
    }
}

/// Whether the class is accepted at its own generation.
pub fn gateway_class_accepted(gc: &GatewayClass) -> (r: bool)
    ensures
        r == true_at(gc.conds(), "Accepted"@, gc.metadata.gen() as int),
{
    let c: Option<&[Condition]> = match &gc.status {
        Some(s) => match &s.conditions {
            Some(c) => Some(c.as_slice()),
            None => None,
        },
        None => None,
    };
    has_condition_at_gen(c, "Accepted", gc.metadata.generation_or_zero())
}

/// Whether the Gateway is accepted.
pub fn gateway_accepted(gw: &Gateway) -> (r: bool)
    ensures
        r == true_at(gw.conds(), "Accepted"@, 0),
{
    has_condition(gw.status_conditions(), "Accepted")
}

/// Whether the Gateway is programmed.
pub fn gateway_programmed(gw: &Gateway) -> (r: bool)
    ensures
        r == true_at(gw.conds(), "Programmed"@, 0),
{
    has_condition(gw.status_conditions(), "Programmed")
}

/// Whether the Gateway is programmed at its own generation.
pub fn gateway_programmed_at_current_gen(gw: &Gateway) -> (r: bool)
    ensures
        r == true_at(gw.conds(), "Programmed"@, gw.metadata.gen() as int),
{
    has_condition_at_gen(
        gw.status_conditions(),
        "Programmed",
        gw.metadata.generation_or_zero(),
    )
}

/// Some condition was observed before `generation`.
pub open spec fn stale(c: Seq<ConditionView>, generation: int) -> bool {
    exists|i: int| 0 <= i < c.len() && (#[trigger] c[i]).gen() < generation
}

/// Whether some condition was observed before `expected_gen`.
pub fn any_condition_stale(c: &[Condition], expected_gen: i64) -> (r: bool)
    ensures
        r == stale(conds(c@), expected_gen as int),
{
    let mut i: usize = 0;
    while i < c.len()
        invariant
            i <= c.len(),
            forall|j: int| 0 <= j < i ==> (#[trigger] conds(c@)[j]).gen() >= expected_gen,
        decreases c.len() - i,
    {
        if c[i].generation_or_zero() < expected_gen {
            assert(conds(c@)[i as int].gen() < expected_gen);
            return true;
        }
        i = i + 1;
    }
    false
}

/// A group and kind name a ListenerSet of the Gateway API.
pub open spec fn names_listener_set(group: Option<Seq<char>>, kind: Option<Seq<char>>) -> bool {
    &&& (group is None || group->0 == GW_GROUP@)
    &&& kind == Some("ListenerSet"@)
}

/// What an optional text slice holds.
pub open spec fn opt_slice(s: Option<&str>) -> Option<Seq<char>> {
    match s {
        Some(t) => Some(t@),
        None => None,
    }
}

/// Whether a parent reference targets a `ListenerSet` of the Gateway API group; a reference
/// without a group belongs to that group.
pub fn is_listener_set_ref(group: Option<&str>, kind: Option<&str>) -> (r: bool)
    ensures
        r == names_listener_set(opt_slice(group), opt_slice(kind)),
{
    let group_ok = match group {
        Some(g) => str_eq(g, GW_GROUP),
        None => true,
    };
    let kind_ok = match kind {
        Some(k) => str_eq(k, "ListenerSet"),
        None => false,
    };
    group_ok && kind_ok
}

/// The Gateway that a parent reference names is among the owned ones: a reference without a group
/// belongs to the Gateway API, one without a kind is a Gateway, and one without a namespace
/// points into `default_ns`.
pub open spec fn owned_parent(
    group: Option<Seq<char>>,
    kind: Option<Seq<char>>,
    namespace: Option<Seq<char>>,
    name: Seq<char>,
    default_ns: Seq<char>,
    owned: Set<(Seq<char>, Seq<char>)>,
) -> bool {
    &&& (group is None || group->0 == GW_GROUP@)
    &&& (kind is None || kind->0 == "Gateway"@)
    &&& owned.contains(
        (
            match namespace {
                Some(n) => n,
                None => default_ns,
            },
            name,
        ),
    )
}

/// Whether a parent reference points at an owned Gateway.
pub fn parent_ref_owned(
    group: Option<&str>,
    kind: Option<&str>,
    namespace: Option<&str>,
    name: &str,
    default_ns: &str,
    owned_gateways: &KeySet<ObjectKey>,
) -> (r: bool)
    ensures
        r == owned_parent(
            opt_slice(group),
            opt_slice(kind),
            opt_slice(namespace),
            name@,
            default_ns@,
            owned_gateways@,
        ),
{
    let group_ok = match group {
        Some(g) => str_eq(g, GW_GROUP),
        None => true,
    };
    let kind_ok = match kind {
        Some(k) => str_eq(k, "Gateway"),
        None => true,
    };
    let ns: &str = match namespace {
        Some(n) => n,
        None => default_ns,
    };
    group_ok && kind_ok && owned_gateways.contains(&ObjectKey::new(ns, name))
}

/// A parent reference of a route gets a status entry from this controller.
pub open spec fn gets_status(
    group: Option<Seq<char>>,
    kind: Option<Seq<char>>,
    namespace: Option<Seq<char>>,
    name: Seq<char>,
    default_ns: Seq<char>,
    owned: Set<(Seq<char>, Seq<char>)>,
    health_present: bool,
) -> bool {
    if names_listener_set(group, kind) {
        health_present
    } else {
        owned_parent(group, kind, namespace, name, default_ns, owned)
    }
}

/// Whether a parent reference of a route gets a status entry from this controller: a reference to
/// a ListenerSet where health was recorded for it, any other where it points at an owned Gateway.
pub fn route_parent_gets_status(
    group: Option<&str>,
    kind: Option<&str>,
    namespace: Option<&str>,
    name: &str,
    default_ns: &str,
    owned_gateways: &KeySet<ObjectKey>,
    health_present: bool,
) -> (r: bool)
    ensures
        r == gets_status(
            opt_slice(group),
            opt_slice(kind),
            opt_slice(namespace),
            name@,
            default_ns@,
            owned_gateways@,
            health_present,
        ),
{
    if is_listener_set_ref(group, kind) {
        health_present
    } else {
        parent_ref_owned(group, kind, namespace, name, default_ns, owned_gateways)
    }
}

/// A JSON value states a condition: this type, status, reason, message, generation and time.
pub open spec fn states(
    j: JsonView,
    type_: Seq<char>,
    status: Seq<char>,
    reason: Seq<char>,
    message: Seq<char>,
    generation: int,
    now: Seq<char>,
) -> bool {
    &&& j.at("type"@) == JsonView::Str(type_)
    &&& j.at("status"@) == JsonView::Str(status)
    &&& j.at("reason"@) == JsonView::Str(reason)
    &&& j.at("message"@) == JsonView::Str(message)
    &&& j.at("observedGeneration"@) == JsonView::Int(generation)
    &&& j.at("lastTransitionTime"@) == JsonView::Str(now)
}

/// A condition in JSON has each part of the condition under the name that the API gives it.
pub proof fn condition_json_carries_its_parts(c: ConditionView)
    ensures
        condition_json(c).at("type"@) == JsonView::Str(c.type_),
        condition_json(c).at("status"@) == JsonView::Str(c.status),
        condition_json(c).at("reason"@) == JsonView::Str(c.reason),
        condition_json(c).at("message"@) == JsonView::Str(c.message),
        condition_json(c).at("lastTransitionTime"@) == JsonView::Str(c.last_transition_time),
        condition_json(c).at("observedGeneration"@) == match c.observed_generation {
            Some(g) => JsonView::Int(g as int),
            None => JsonView::Null,
        },
{
    reveal_strlit("lastTransitionTime");
    reveal_strlit("message");
    reveal_strlit("observedGeneration");
    reveal_strlit("reason");
    reveal_strlit("status");
    reveal_strlit("type");
    assert("lastTransitionTime"@.len() == 18);
    assert("observedGeneration"@.len() == 18);
    assert("message"@.len() == 7);
    assert("reason"@.len() == 6);
    assert("status"@.len() == 6);
    assert("type"@.len() == 4);
    assert("lastTransitionTime"@[0] == 'l');
    assert("observedGeneration"@[0] == 'o');
    assert("reason"@[0] == 'r');
    assert("status"@[0] == 's');
    let a = ("lastTransitionTime"@, JsonView::Str(c.last_transition_time));
    let b = ("message"@, JsonView::Str(c.message));
    let head = seq![a, b];
    let with_generation = match c.observed_generation {
        Some(g) => head.push(("observedGeneration"@, JsonView::Int(g as int))),
        None => head,
    };
    let r = ("reason"@, JsonView::Str(c.reason));
    let s = ("status"@, JsonView::Str(c.status));
    let t = ("type"@, JsonView::Str(c.type_));
    assert forall|key: Seq<char>| true implies member(
        condition_json(c)->Obj_0,
        key,
    ) == #[trigger] expected_part(c, key) by {
        lemma_member_two(a, b, key);
        if c.observed_generation is Some {
            lemma_member_push(
                head,
                ("observedGeneration"@, JsonView::Int(c.observed_generation->0 as int)),
                key,
            );
        }
        lemma_member_push(with_generation, r, key);
        lemma_member_push(with_generation.push(r), s, key);
        lemma_member_push(with_generation.push(r).push(s), t, key);
    }
    assert(expected_part(c, "type"@) == Some(JsonView::Str(c.type_)));
    assert(expected_part(c, "status"@) == Some(JsonView::Str(c.status)));
    assert(expected_part(c, "reason"@) == Some(JsonView::Str(c.reason)));
    assert(expected_part(c, "message"@) == Some(JsonView::Str(c.message)));
    assert(expected_part(c, "lastTransitionTime"@) == Some(JsonView::Str(c.last_transition_time)));
    assert(expected_part(c, "observedGeneration"@) == match c.observed_generation {
        Some(g) => Some(JsonView::Int(g as int)),
        None => None,
    });
}

spec fn expected_part(c: ConditionView, key: Seq<char>) -> Option<JsonView> {
    if key == "lastTransitionTime"@ {
        Some(JsonView::Str(c.last_transition_time))
    } else if key == "message"@ {
        Some(JsonView::Str(c.message))
    } else if key == "observedGeneration"@ && c.observed_generation is Some {
        Some(JsonView::Int(c.observed_generation->0 as int))
    } else if key == "reason"@ {
        Some(JsonView::Str(c.reason))
    } else if key == "status"@ {
        Some(JsonView::Str(c.status))
    } else if key == "type"@ {
        Some(JsonView::Str(c.type_))
    } else {
        None
    }
}

} // verus!
