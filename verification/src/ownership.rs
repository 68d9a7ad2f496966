//! Which classes are this controller's, and which Gateways the operator takes care of.

use vstd::prelude::*;

use crate::listenerset_status::ListenerSet;
use crate::policy_status::key_views;
use crate::resources::{str_or, text_or, Gateway, GatewayClass, ObjectKey, ParamsRef};
use crate::table::KeySet;
use crate::text::{opt_is, opt_text, str_eq};

verus! {

/// API group of the parameters of a dedicated Gateway.
pub const COXSWAIN_PARAMS_GROUP: &'static str = "gateway.coxswain-labs.dev";

/// Kind of the parameters of a dedicated Gateway.
pub const COXSWAIN_PARAMS_KIND: &'static str = "CoxswainGatewayParameters";

/// The reference, where there is one, points at parameters of a dedicated Gateway.
pub open spec fn points_at_params(r: Option<ParamsRef>) -> bool {
    r matches Some(p) && p.group@ == COXSWAIN_PARAMS_GROUP@ && p.kind@ == COXSWAIN_PARAMS_KIND@
}

fn check_params(r: &Option<ParamsRef>) -> (b: bool)
    ensures
        b == points_at_params(*r),
{
    match r {
        Some(p) => str_eq(p.group.as_str(), COXSWAIN_PARAMS_GROUP) && str_eq(
            p.kind.as_str(),
            COXSWAIN_PARAMS_KIND,
        ),
        None => false,
    }
}

/// Whether the parameters reference of the class points at parameters of a dedicated Gateway.
pub fn class_has_coxswain_params_ref(gc: &GatewayClass) -> (r: bool)
    ensures
        r == points_at_params(gc.parameters_ref),
{
    check_params(&gc.parameters_ref)
}

/// Whether the Gateway's own parameters reference points at parameters of a dedicated Gateway.
pub fn gateway_has_coxswain_params_ref(gw: &Gateway) -> (r: bool)
    ensures
        r == points_at_params(gw.spec.parameters_ref),
{
    check_params(&gw.spec.parameters_ref)
}

/// The Gateway is dedicated, by its own reference or by its class.
pub open spec fn dedicated(gw: Gateway, dedicated_classes: Set<Seq<char>>) -> bool {
    points_at_params(gw.spec.parameters_ref) || dedicated_classes.contains(
        gw.spec.gateway_class_name@,
    )
}

/// Whether the Gateway is dedicated, so that its status is the operator's to write.
pub fn is_dedicated_mode(gw: &Gateway, owned_dedicated_classes: &KeySet<String>) -> (r: bool)
    ensures
        r == dedicated(*gw, owned_dedicated_classes@),
{
    gateway_has_coxswain_params_ref(gw) || owned_dedicated_classes.contains(
        &gw.spec.gateway_class_name,
    )
}

/// The class is this controller's and has the name `n`.
pub open spec fn ours(gc: GatewayClass, me: Seq<char>, n: Seq<char>) -> bool {
    gc.controller_name@ == me && opt_text(gc.metadata.name) == Some(n)
}

/// The names of the classes that are this controller's.
pub open spec fn owned_classes(classes: Seq<GatewayClass>, me: Seq<char>) -> Set<Seq<char>> {
    Set::new(
        |n: Seq<char>|
            exists|i: int| 0 <= i < classes.len() && ours(#[trigger] classes[i], me, n),
    )
}

/// The names of the classes that are this controller's and make their Gateways dedicated.
pub open spec fn dedicated_classes(classes: Seq<GatewayClass>, me: Seq<char>) -> Set<Seq<char>> {
    Set::new(
        |n: Seq<char>|
            exists|i: int|
                0 <= i < classes.len() && ours(#[trigger] classes[i], me, n) && points_at_params(
                    classes[i].parameters_ref,
                ),
    )
}

/// The names of the classes that are this controller's, and of those that make their Gateways
/// dedicated.
pub fn classify_gateway_classes(classes: &Vec<GatewayClass>, controller_name: &str) -> (r: (
    KeySet<String>,
    KeySet<String>,
))
    ensures
        r.0@ == owned_classes(classes@, controller_name@),
        r.1@ == dedicated_classes(classes@, controller_name@),
{
    let ghost me = controller_name@;
    let ghost all = classes@;
    let mut owned: KeySet<String> = KeySet::new();
    let mut special: KeySet<String> = KeySet::new();
    let mut i: usize = 0;
    assert(owned@ =~= owned_classes(all.take(0), me));
    assert(special@ =~= dedicated_classes(all.take(0), me));
    while i < classes.len()
        invariant
            i <= classes.len(),
            all == classes@,
            me == controller_name@,
            owned@ == owned_classes(all.take(i as int), me),
            special@ == dedicated_classes(all.take(i as int), me),
        decreases classes.len() - i,
    {
        let gc = &classes[i];
        let ghost a = all.take(i as int);
        let ghost b = all.take(i + 1);
        let ghost n = opt_text(gc.metadata.name);
        let ghost owned_before = owned@;
        let ghost special_before = special@;
        if str_eq(gc.controller_name.as_str(), controller_name) {
            if let Some(name) = &gc.metadata.name {
                if class_has_coxswain_params_ref(gc) {
                    special.insert(name.clone());
                }
                owned.insert(name.clone());
            }
        }
        proof {
            assert(forall|j: int| 0 <= j < i ==> #[trigger] a[j] == b[j]);
            assert(b[i as int] == *gc);
            assert forall|x: Seq<char>| owned@.contains(x) <==> owned_classes(b, me).contains(
                x,
            ) by {
                if owned_before.contains(x) {
                    let j = choose|j: int| 0 <= j < a.len() && ours(#[trigger] a[j], me, x);
                    assert(ours(b[j], me, x));
                }
                if owned_classes(b, me).contains(x) {
                    let j = choose|j: int| 0 <= j < b.len() && ours(#[trigger] b[j], me, x);
                    if j < i {
                        assert(ours(a[j], me, x));
                    }
                }
                if ours(*gc, me, x) {
                    assert(ours(b[i as int], me, x));
                }
            }
            assert(owned@ =~= owned_classes(b, me));
            assert forall|x: Seq<char>| special@.contains(x) <==> dedicated_classes(
                b,
                me,
            ).contains(x) by {
                if special_before.contains(x) {
                    let j = choose|j: int|
                        0 <= j < a.len() && ours(#[trigger] a[j], me, x) && points_at_params(
                            a[j].parameters_ref,
                        );
                    assert(ours(b[j], me, x));
                }
                if dedicated_classes(b, me).contains(x) {
                    let j = choose|j: int|
                        0 <= j < b.len() && ours(#[trigger] b[j], me, x) && points_at_params(
                            b[j].parameters_ref,
                        );
                    if j < i {
                        assert(ours(a[j], me, x));
                    }
                }
                if ours(*gc, me, x) {
                    assert(ours(b[i as int], me, x));
                }
            }
            assert(special@ =~= dedicated_classes(b, me));
        }
        i = i + 1;
    }
    assert(all.take(i as int) =~= all);
    (owned, special)
}

/// An IngressClass.
#[derive(Debug, Clone, Default, PartialEq, Eq)]
pub struct IngressClass {
    /// Name.
    pub name: Option<String>,
    /// `spec.controller`.
    pub controller: Option<String>,
    /// Whether it is marked as the default class.
    pub is_default: bool,
}

/// The class is this controller's and has the name `n`.
pub open spec fn our_ingress(ic: IngressClass, me: Seq<char>, n: Seq<char>) -> bool {
    opt_text(ic.controller) == Some(me) && opt_text(ic.name) == Some(n)
}

/// The names of the Ingress classes that are this controller's.
pub open spec fn owned_ingress_classes(classes: Seq<IngressClass>, me: Seq<char>) -> Set<
    Seq<char>,
> {
    Set::new(
        |n: Seq<char>|
            exists|i: int| 0 <= i < classes.len() && our_ingress(#[trigger] classes[i], me, n),
    )
}

/// The names of the Ingress classes that are this controller's and default.
pub open spec fn default_ingress_classes(classes: Seq<IngressClass>, me: Seq<char>) -> Set<
    Seq<char>,
> {
    Set::new(
        |n: Seq<char>|
            exists|i: int|
                0 <= i < classes.len() && our_ingress(#[trigger] classes[i], me, n)
                    && classes[i].is_default,
    )
}

/// The names of the Ingress classes that are this controller's, and of those that are default.
pub fn classify_ingress_classes(classes: &Vec<IngressClass>, controller_name: &str) -> (r: (
    KeySet<String>,
    KeySet<String>,
))
    ensures
        r.0@ == owned_ingress_classes(classes@, controller_name@),
        r.1@ == default_ingress_classes(classes@, controller_name@),
{
    let ghost me = controller_name@;
    let ghost all = classes@;
    let mut owned: KeySet<String> = KeySet::new();
    let mut special: KeySet<String> = KeySet::new();
    let mut i: usize = 0;
    assert(owned@ =~= owned_ingress_classes(all.take(0), me));
    assert(special@ =~= default_ingress_classes(all.take(0), me));
    while i < classes.len()
        invariant
            i <= classes.len(),
            all == classes@,
            me == controller_name@,
            owned@ == owned_ingress_classes(all.take(i as int), me),
            special@ == default_ingress_classes(all.take(i as int), me),
        decreases classes.len() - i,
    {
        let ic = &classes[i];
        let ghost a = all.take(i as int);
        let ghost b = all.take(i + 1);
        let ghost owned_before = owned@;
        let ghost special_before = special@;
        if opt_is(&ic.controller, controller_name) {
            if let Some(name) = &ic.name {
                if ic.is_default {
                    special.insert(name.clone());
                }
                owned.insert(name.clone());
            }
        }
        proof {
            assert(forall|j: int| 0 <= j < i ==> #[trigger] a[j] == b[j]);
            assert(b[i as int] == *ic);
            assert forall|x: Seq<char>| owned@.contains(x) <==> owned_ingress_classes(
                b,
                me,
            ).contains(x) by {
                if owned_before.contains(x) {
                    let j = choose|j: int| 0 <= j < a.len() && our_ingress(#[trigger] a[j], me, x);
                    assert(our_ingress(b[j], me, x));
                }
                if owned_ingress_classes(b, me).contains(x) {
                    let j = choose|j: int| 0 <= j < b.len() && our_ingress(#[trigger] b[j], me, x);
                    if j < i {
                        assert(our_ingress(a[j], me, x));
                    }
                }
                if our_ingress(*ic, me, x) {
                    assert(our_ingress(b[i as int], me, x));
                }
            }
            assert(owned@ =~= owned_ingress_classes(b, me));
            assert forall|x: Seq<char>| special@.contains(x) <==> default_ingress_classes(
                b,
                me,
            ).contains(x) by {
                if special_before.contains(x) {
                    let j = choose|j: int|
                        0 <= j < a.len() && our_ingress(#[trigger] a[j], me, x) && a[j].is_default;
                    assert(our_ingress(b[j], me, x));
                }
                if default_ingress_classes(b, me).contains(x) {
                    let j = choose|j: int|
                        0 <= j < b.len() && our_ingress(#[trigger] b[j], me, x) && b[j].is_default;
                    if j < i {
                        assert(our_ingress(a[j], me, x));
                    }
                }
                if our_ingress(*ic, me, x) {
                    assert(our_ingress(b[i as int], me, x));
                }
            }
            assert(special@ =~= default_ingress_classes(b, me));
        }
        i = i + 1;
    }
    assert(all.take(i as int) =~= all);
    (owned, special)
}

/// The keys of the Gateways of the class, in their order.
pub open spec fn keys_of_class(name: Option<Seq<char>>, gateways: Seq<Gateway>) -> Seq<
    (Seq<char>, Seq<char>),
> {
    match name {
        Some(n) => gateways.filter(|gw: Gateway| gw.spec.gateway_class_name@ == n).map_values(
            |gw: Gateway| gw.metadata.key_view(),
        ),
        None => Seq::empty(),
    }
}

/// The Gateways to look at again when a class changes: those of that class, in their order. A class
/// without a name has none.
pub fn gateways_of_class(class_name: &Option<String>, gateways: &Vec<Gateway>) -> (r: Vec<
    ObjectKey,
>)
    ensures
        key_views(r@) == keys_of_class(opt_text(*class_name), gateways@),
{
    let mut out: Vec<ObjectKey> = Vec::new();
    let name: &String = match class_name {
        Some(n) => n,
        None => {
            assert(key_views(out@) =~= Seq::<(Seq<char>, Seq<char>)>::empty());
            return out;
        },
    };
    let ghost all = gateways@;
    let ghost n = name@;
    let ghost keep = |gw: Gateway| gw.spec.gateway_class_name@ == n;
    let ghost key = |gw: Gateway| gw.metadata.key_view();
    let mut i: usize = 0;
    assert(all.take(0).filter(keep) =~= Seq::<Gateway>::empty()) by {
        reveal_with_fuel(Seq::filter, 1);
    }
    assert(key_views(out@) =~= all.take(0).filter(keep).map_values(key));
    while i < gateways.len()
        invariant
            i <= gateways.len(),
            all == gateways@,
            n == name@,
            keep == (|gw: Gateway| gw.spec.gateway_class_name@ == n),
            key == (|gw: Gateway| gw.metadata.key_view()),
            key_views(out@) == all.take(i as int).filter(keep).map_values(key),
        decreases gateways.len() - i,
    {
        let ghost before = out@;
        let ghost s = all.take(i as int);
        proof {
            assert(all.take(i + 1) =~= s.push(all[i as int]));
            s.lemma_filter_push(all[i as int], keep);
        }
        if str_eq(gateways[i].spec.gateway_class_name.as_str(), name.as_str()) {
            out.push(gateways[i].metadata.key());
            assert(key_views(out@) =~= key_views(before).push(key(all[i as int])));
            assert(s.filter(keep).push(all[i as int]).map_values(key) =~= s.filter(
                keep,
            ).map_values(key).push(key(all[i as int])));
        }
        i = i + 1;
    }
    assert(all.take(i as int) =~= all);
    out
}

/// The key of the Gateway that the ListenerSet attaches to; it is in the set's own namespace where
/// the reference names none, and that is `fallback` where the set has none.
pub open spec fn parent_of(ls: ListenerSet, fallback: Seq<char>) -> (Seq<char>, Seq<char>) {
    (
        text_or(ls.parent_namespace, text_or(ls.metadata.namespace, fallback)),
        ls.parent_name@,
    )
}

/// The keys of the ListenerSets that attach to the Gateway, in their order.
pub open spec fn keys_of_sets(gw: Gateway, sets: Seq<ListenerSet>) -> Seq<(Seq<char>, Seq<char>)> {
    sets.filter(|ls: ListenerSet| parent_of(ls, ""@) == gw.metadata.key_view()).map_values(
        |ls: ListenerSet| ls.metadata.key_view(),
    )
}

/// The ListenerSets to look at again when a Gateway changes: those that attach to it, in their
/// order.
pub fn listener_sets_of_gateway(gw: &Gateway, sets: &Vec<ListenerSet>) -> (r: Vec<ObjectKey>)
    ensures
        key_views(r@) == keys_of_sets(*gw, sets@),
{
    let mut out: Vec<ObjectKey> = Vec::new();
    let ghost all = sets@;
    let ghost keep = |ls: ListenerSet| parent_of(ls, ""@) == gw.metadata.key_view();
    let ghost key = |ls: ListenerSet| ls.metadata.key_view();
    let gw_ns = str_or(&gw.metadata.namespace, "");
    let gw_name = str_or(&gw.metadata.name, "");
    let mut i: usize = 0;
    assert(all.take(0).filter(keep) =~= Seq::<ListenerSet>::empty()) by {
        reveal_with_fuel(Seq::filter, 1);
    }
    assert(key_views(out@) =~= all.take(0).filter(keep).map_values(key));
    while i < sets.len()
        invariant
            i <= sets.len(),
            all == sets@,
            gw_ns@ == gw.metadata.key_view().0,
            gw_name@ == gw.metadata.key_view().1,
            keep == (|ls: ListenerSet| parent_of(ls, ""@) == gw.metadata.key_view()),
            key == (|ls: ListenerSet| ls.metadata.key_view()),
            key_views(out@) == all.take(i as int).filter(keep).map_values(key),
        decreases sets.len() - i,
    {
        let ghost before = out@;
        let ghost s = all.take(i as int);
        proof {
            assert(all.take(i + 1) =~= s.push(all[i as int]));
            s.lemma_filter_push(all[i as int], keep);
        }
        let ls = &sets[i];
        let parent_ns = str_or(&ls.parent_namespace, str_or(&ls.metadata.namespace, ""));
        if str_eq(parent_ns, gw_ns) && str_eq(ls.parent_name.as_str(), gw_name) {
            out.push(ls.metadata.key());
            assert(key_views(out@) =~= key_views(before).push(key(all[i as int])));
            assert(s.filter(keep).push(all[i as int]).map_values(key) =~= s.filter(
                keep,
            ).map_values(key).push(key(all[i as int])));
        }
        i = i + 1;
    }
    assert(all.take(i as int) =~= all);
    out
}

/// A class that makes its Gateways dedicated is this controller's.
pub proof fn dedicated_classes_are_owned(classes: Seq<GatewayClass>, me: Seq<char>)
    ensures
        dedicated_classes(classes, me).subset_of(owned_classes(classes, me)),
{
}

/// A default Ingress class is this controller's.
pub proof fn default_classes_are_owned(classes: Seq<IngressClass>, me: Seq<char>)
    ensures
        default_ingress_classes(classes, me).subset_of(owned_ingress_classes(classes, me)),
{
}

} // verus!
