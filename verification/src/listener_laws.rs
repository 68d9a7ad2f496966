//! What is found in the records of listeners and in the lists of a status.

use vstd::prelude::*;

use crate::conditions::{conditions_json, first_of, lemma_first, ConditionView};
use crate::config::StatusAddress;
use crate::gateway_status::{
    address_json, first_named, kind_json, lemma_first_named, listener_json, reads, reason_message,
    GatewayConditionReason, SupportedAddressType,
};
use crate::json::{
    lemma_member_one, lemma_member_push, lemma_member_three, lemma_member_two, opt_str, JsonView,
};
use crate::listener_status::{
    attached_sets, lemma_lookup, lookup, source_key, ListenerEntry, ListenerInfo,
};
use crate::listenerset_status::first_true;
use crate::resources::{AddressView, ListenerStatusView, ObjectMeta, RouteKindView};

verus! {

/// The record is of the listener with this name: one of the Gateway itself, or one of the
/// ListenerSet with this key.
pub open spec fn is_of(
    x: ListenerEntry,
    set: Option<(Seq<char>, Seq<char>)>,
    name: Seq<char>,
) -> bool {
    &&& x.name@ == name
    &&& set is None ==> x.source is Gateway
    &&& set is Some ==> x.source is ListenerSet && (
        x.source->ListenerSet_0.ns@,
        x.source->ListenerSet_0.name@,
    ) == set->0
}

/// The record at `k` is the first of the listener.
pub open spec fn is_first_record(
    e: Seq<ListenerEntry>,
    set: Option<(Seq<char>, Seq<char>)>,
    name: Seq<char>,
    k: int,
) -> bool {
    &&& 0 <= k < e.len()
    &&& is_of(e[k], set, name)
    &&& forall|j: int| 0 <= j < k ==> !is_of(#[trigger] e[j], set, name)
}

/// What is recorded first of the listener, if anything.
pub open spec fn recorded_as(
    e: Seq<ListenerEntry>,
    set: Option<(Seq<char>, Seq<char>)>,
    name: Seq<char>,
    info: Option<ListenerInfo>,
) -> bool {
    &&& info is Some ==> exists|k: int| #[trigger]
        is_first_record(e, set, name, k) && e[k].info == info->0
    &&& info is None ==> forall|j: int| 0 <= j < e.len() ==> !is_of(#[trigger] e[j], set, name)
}

/// The health of a listener is what is recorded first of it, whether the Gateway or a ListenerSet
/// has it; a listener of one is never taken for that of another.
pub proof fn health_is_what_was_recorded(
    e: Seq<ListenerEntry>,
    set: Option<(Seq<char>, Seq<char>)>,
    name: Seq<char>,
    info: Option<ListenerInfo>,
)
    ensures
        recorded_as(e, set, name, info) <==> lookup(e, set, name) == info,
{
    if exists|k: int| is_first_record(e, set, name, k) {
        let k = choose|k: int| is_first_record(e, set, name, k);
        lemma_lookup(e, set, name, k);
        if recorded_as(e, set, name, info) && info is Some {
            let m = choose|m: int| #[trigger]
                is_first_record(e, set, name, m) && e[m].info == info->0;
            lemma_lookup(e, set, name, m);
        }
    } else {
        assert forall|j: int| 0 <= j < e.len() implies !is_of(#[trigger] e[j], set, name) by {
            lemma_no_first(e, set, name, j);
        }
        lemma_lookup(e, set, name, e.len() as int);
    }
}

proof fn lemma_no_first(
    e: Seq<ListenerEntry>,
    set: Option<(Seq<char>, Seq<char>)>,
    name: Seq<char>,
    j: int,
)
    requires
        !exists|k: int| is_first_record(e, set, name, k),
        0 <= j < e.len(),
    ensures
        forall|i: int| 0 <= i <= j ==> !is_of(#[trigger] e[i], set, name),
    decreases j,
{
    if j > 0 {
        lemma_no_first(e, set, name, j - 1);
    }
    if is_of(e[j], set, name) {
        assert(is_first_record(e, set, name, j));
    }
}

/// A ListenerSet is attached exactly if one of its listeners is recorded that lost to no other.
pub proof fn attached_sets_have_a_listener_that_won(
    e: Seq<ListenerEntry>,
    k: (Seq<char>, Seq<char>),
)
    ensures
        attached_sets(e).contains(k) <==> exists|i: int|
            0 <= i < e.len() && (#[trigger] e[i]).source is ListenerSet && (
                e[i].source->ListenerSet_0.ns@,
                e[i].source->ListenerSet_0.name@,
            ) == k && !e[i].info.conflicted,
{
    if attached_sets(e).contains(k) {
        let i = choose|i: int|
            0 <= i < e.len() && source_key((#[trigger] e[i]).source)
                == Some(k) && !e[i].info.conflicted;
        assert(e[i].source is ListenerSet);
    }
}

/// The condition at `k` is the first of its type.
pub open spec fn is_first_of(c: Seq<ConditionView>, t: Seq<char>, k: int) -> bool {
    &&& 0 <= k < c.len()
    &&& c[k].type_ == t
    &&& forall|j: int| 0 <= j < k ==> (#[trigger] c[j]).type_ != t
}

/// The first condition of the type has this status.
pub open spec fn has_status(c: Seq<ConditionView>, t: Seq<char>, status: Seq<char>) -> bool {
    exists|k: int| #[trigger] is_first_of(c, t, k) && c[k].status == status
}

/// The first condition of the type has this status and reason.
pub open spec fn tells(
    c: Seq<ConditionView>,
    t: Seq<char>,
    status: Seq<char>,
    reason: Seq<char>,
) -> bool {
    exists|k: int| #[trigger]
        is_first_of(c, t, k) && c[k].status == status && c[k].reason == reason
}

/// No condition has the type.
pub open spec fn lacks(c: Seq<ConditionView>, t: Seq<char>) -> bool {
    forall|k: int| 0 <= k < c.len() ==> (#[trigger] c[k]).type_ != t
}

proof fn lemma_first_exists(c: Seq<ConditionView>, t: Seq<char>) -> (k: int)
    ensures
        0 <= k <= c.len(),
        k < c.len() ==> is_first_of(c, t, k),
        k == c.len() ==> lacks(c, t),
    decreases c.len(),
{
    if c.len() == 0 {
        0
    } else {
        let d = c.drop_last();
        let k = lemma_first_exists(d, t);
        assert(forall|j: int| 0 <= j < d.len() ==> #[trigger] c[j] == d[j]);
        if k < d.len() {
            k
        } else if c[c.len() - 1].type_ == t {
            c.len() - 1
        } else {
            c.len() as int
        }
    }
}

/// What a list of conditions says of a type is what its first condition of that type says.
pub proof fn first_condition_counts(
    c: Seq<ConditionView>,
    t: Seq<char>,
    status: Seq<char>,
    reason: Seq<char>,
)
    ensures
        first_of(c, t) is None <==> lacks(c, t),
        first_of(c, t) is Some ==> has_status(c, t, first_of(c, t)->0.status),
        first_true(c, t) <==> has_status(c, t, "True"@),
        reads(c, t, status, reason) <==> tells(c, t, status, reason),
        (first_of(c, t) is Some && first_of(c, t)->0.status == status) <==> has_status(
            c,
            t,
            status,
        ),
{
    let k = lemma_first_exists(c, t);
    lemma_first(c, t, k);
    assert forall|m: int| is_first_of(c, t, m) implies m == k && k < c.len() by {
        if k < c.len() {
            if m < k {
                assert(c[m].type_ != t);
            } else if k < m {
                assert(c[k].type_ != t);
            }
        } else {
            assert(c[m].type_ != t);
        }
    }
}

/// The entry at `k` is the first of the listener with this name.
pub open spec fn is_entry_of(s: Seq<ListenerStatusView>, name: Seq<char>, k: int) -> bool {
    &&& 0 <= k < s.len()
    &&& s[k].name == name
    &&& forall|j: int| 0 <= j < k ==> (#[trigger] s[j]).name != name
}

/// The entry of a listener is the first with its name.
pub proof fn first_entry_counts(s: Seq<ListenerStatusView>, name: Seq<char>) -> (k: int)
    ensures
        0 <= k <= s.len(),
        k < s.len() ==> is_entry_of(s, name, k) && first_named(s, name) == Some(s[k]),
        k == s.len() ==> first_named(s, name) is None && forall|j: int|
            0 <= j < s.len() ==> (#[trigger] s[j]).name != name,
    decreases s.len(),
{
    if s.len() == 0 {
        0
    } else {
        let d = s.drop_last();
        let k = first_entry_counts(d, name);
        assert(forall|j: int| 0 <= j < d.len() ==> #[trigger] s[j] == d[j]);
        let m = if k < d.len() {
            k
        } else if s[s.len() - 1].name == name {
            s.len() - 1
        } else {
            s.len() as int
        };
        lemma_first_named(s, name, m);
        m
    }
}

/// A route kind in JSON has its group, where it has one, and its kind.
pub proof fn kind_json_carries_its_parts(k: RouteKindView)
    ensures
        kind_json(k).at("kind"@) == JsonView::Str(k.kind),
        kind_json(k).at("group"@) == opt_str(k.group),
{
    reveal_strlit("group");
    reveal_strlit("kind");
    assert("group"@.len() == 5 && "kind"@.len() == 4);
    let y = ("kind"@, JsonView::Str(k.kind));
    let x = ("group"@, JsonView::Str(k.group->0));
    lemma_member_two(x, y, "kind"@);
    lemma_member_two(x, y, "group"@);
    lemma_member_one(y, "kind"@);
    lemma_member_one(y, "group"@);
}

/// An address in JSON has its type, where it has one, and its value.
pub proof fn address_json_carries_its_parts(a: AddressView)
    ensures
        address_json(a).at("value"@) == JsonView::Str(a.value),
        address_json(a).at("type"@) == opt_str(a.type_),
{
    reveal_strlit("type");
    reveal_strlit("value");
    assert("type"@.len() == 4 && "value"@.len() == 5);
    let y = ("value"@, JsonView::Str(a.value));
    let x = ("type"@, JsonView::Str(a.type_->0));
    lemma_member_two(x, y, "type"@);
    lemma_member_two(x, y, "value"@);
    lemma_member_one(y, "type"@);
    lemma_member_one(y, "value"@);
}

/// A listener status in JSON has each part under the name that the API gives it.
pub proof fn listener_json_carries_its_parts(l: ListenerStatusView)
    ensures
        ({
            let j = listener_json(l);
            &&& j.at("name"@) == JsonView::Str(l.name)
            &&& j.at("attachedRoutes"@) == JsonView::Int(l.attached_routes as int)
            &&& j.at("conditions"@) == conditions_json(l.conditions)
            &&& l.supported_kinds is None ==> j.at("supportedKinds"@) is Null
            &&& l.supported_kinds is Some ==> {
                let k = j.at("supportedKinds"@).elements();
                &&& j.at("supportedKinds"@) is Arr
                &&& k.len() == l.supported_kinds->0.len()
                &&& forall|i: int|
                    0 <= i < k.len() ==> (#[trigger] k[i]).at("kind"@) == JsonView::Str(
                        l.supported_kinds->0[i].kind,
                    ) && k[i].at("group"@) == opt_str(l.supported_kinds->0[i].group)
            }
        }),
{
    reveal_strlit("name");
    reveal_strlit("attachedRoutes");
    reveal_strlit("conditions");
    reveal_strlit("supportedKinds");
    assert("name"@.len() == 4 && "attachedRoutes"@.len() == 14 && "conditions"@.len() == 10
        && "supportedKinds"@.len() == 14);
    assert("attachedRoutes"@[0] == 'a' && "supportedKinds"@[0] == 's');
    let x = ("attachedRoutes"@, JsonView::Int(l.attached_routes as int));
    let y = ("conditions"@, conditions_json(l.conditions));
    let z = ("name"@, JsonView::Str(l.name));
    let k = l.supported_kinds->0;
    let w = ("supportedKinds"@, JsonView::Arr(Seq::new(k.len(), |i: int| kind_json(k[i]))));
    lemma_member_three(x, y, z, "name"@);
    lemma_member_three(x, y, z, "attachedRoutes"@);
    lemma_member_three(x, y, z, "conditions"@);
    lemma_member_three(x, y, z, "supportedKinds"@);
    lemma_member_push(seq![x, y, z], w, "name"@);
    lemma_member_push(seq![x, y, z], w, "attachedRoutes"@);
    lemma_member_push(seq![x, y, z], w, "conditions"@);
    lemma_member_push(seq![x, y, z], w, "supportedKinds"@);
    if l.supported_kinds is Some {
        let e = listener_json(l).at("supportedKinds"@).elements();
        assert forall|i: int| 0 <= i < e.len() implies (#[trigger] e[i]).at("kind"@)
            == JsonView::Str(k[i].kind) && e[i].at("group"@) == opt_str(k[i].group) by {
            kind_json_carries_its_parts(k[i]);
        }
    }
}

/// Reasons and address types are named as the API names them.
pub proof fn names_are_those_of_the_api()
    ensures
        GatewayConditionReason::Programmed.text() == "Programmed"@,
        GatewayConditionReason::Invalid.text() == "Invalid"@,
        GatewayConditionReason::NoResources.text() == "NoResources"@,
        GatewayConditionReason::AddressNotAssigned.text() == "AddressNotAssigned"@,
        GatewayConditionReason::AddressNotUsable.text() == "AddressNotUsable"@,
        GatewayConditionReason::Accepted.text() == "Accepted"@,
        GatewayConditionReason::ListenersNotValid.text() == "ListenersNotValid"@,
        GatewayConditionReason::Pending.text() == "Pending"@,
        GatewayConditionReason::UnsupportedAddress.text() == "UnsupportedAddress"@,
        GatewayConditionReason::InvalidParameters.text() == "InvalidParameters"@,
        GatewayConditionReason::Ready.text() == "Ready"@,
        GatewayConditionReason::ListenersNotReady.text() == "ListenersNotReady"@,
        GatewayConditionReason::ConfigurationChanged.text() == "ConfigurationChanged"@,
        SupportedAddressType::IpAddress.tag() == "IPAddress"@,
        SupportedAddressType::Hostname.tag() == "Hostname"@,
        forall|a: StatusAddress| a is Ip ==> #[trigger] a.tag() == "IPAddress"@,
        forall|a: StatusAddress| a is Hostname ==> #[trigger] a.tag() == "Hostname"@,
        forall|a: StatusAddress| a is Ip ==> #[trigger] a.value() == a->Ip_0@,
        forall|a: StatusAddress| a is Hostname ==> #[trigger] a.value() == a->Hostname_0@,
{
}

/// A reason is explained in words where it needs explaining.
pub proof fn messages_explain_the_reasons(reason: GatewayConditionReason)
    ensures
        reason is InvalidParameters ==> reason_message(reason)
            == "spec.infrastructure.parametersRef targets a kind this implementation does not support"@,
        reason is ListenersNotValid ==> reason_message(reason)
            == "one or more listeners are not accepted; see the per-listener conditions"@,
        reason is UnsupportedAddress ==> reason_message(reason)
            == "spec.addresses contains an address type this implementation does not support"@,
        reason is AddressNotUsable ==> reason_message(reason)
            == "one or more requested spec.addresses could not be assigned to the Gateway"@,
        reason is Invalid ==> reason_message(reason)
            == "Gateway spec is invalid; see the Accepted condition for details"@,
        !(reason is InvalidParameters || reason is ListenersNotValid || reason
            is UnsupportedAddress || reason is AddressNotUsable || reason is Invalid)
            ==> reason_message(reason) == ""@,
{
}

/// What has no generation counts as of generation zero.
pub proof fn missing_generation_is_zero(c: ConditionView, m: ObjectMeta)
    ensures
        c.observed_generation is None ==> c.gen() == 0,
        c.observed_generation is Some ==> c.gen() == c.observed_generation->0,
        m.generation is None ==> m.gen() == 0,
        m.generation is Some ==> m.gen() == m.generation->0,
{
}

} // verus!
