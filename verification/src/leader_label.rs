//! The label by which the leader's pod is found.

use vstd::prelude::*;

use crate::config::{Period, SECOND};
use crate::gateway_reconcile::PatchReply;
use crate::json::{text, Json, JsonView, Object};
use crate::resources::{str_or, text_or};
use crate::text::{cat, str_eq, texts};

verus! {

/// Seconds after which a label that could not be set is tried again.
pub const RETRY: u64 = 5;

/// Seconds after which a label that is set is set again.
pub const REAFFIRM: u64 = 15;

/// The label of the leader's pod.
pub const DISCOVERY_LEADER_LABEL: &'static str = "discovery.coxswain-labs.dev/leader";

/// The patch that sets the label, or takes it away.
pub open spec fn label_patch_json(leading: bool) -> JsonView {
    let value = if leading {
        JsonView::Str("true"@)
    } else {
        JsonView::Null
    };
    JsonView::Obj(
        seq![
            (
                "metadata"@,
                JsonView::Obj(
                    seq![
                        (
                            "labels"@,
                            JsonView::Obj(seq![(DISCOVERY_LEADER_LABEL@, value)]),
                        ),
                    ],
                ),
            ),
        ],
    )
}

/// The patch that sets the label, or takes it away.
pub fn label_patch(leading: bool) -> (r: Json)
    ensures
        r@ == label_patch_json(leading),
{
    let ghost want = label_patch_json(leading);
    let value = if leading {
        text("true")
    } else {
        Json::Null
    };
    let a = Object::new().with(DISCOVERY_LEADER_LABEL, value);
    assert(a@ =~= want->Obj_0[0].1->Obj_0[0].1->Obj_0);
    let b = Object::new().with("labels", a.done());
    assert(b@ =~= want->Obj_0[0].1->Obj_0);
    let c = Object::new().with("metadata", b.done());
    assert(c@ =~= want->Obj_0);
    c.done()
}

/// The selector of the pods that carry the label.
pub fn label_selector() -> (r: String)
    ensures
        r@ == DISCOVERY_LEADER_LABEL@ + "=true"@,
{
    cat(DISCOVERY_LEADER_LABEL, "=true")
}

/// The label of one replica's pod.
pub struct LeaderLabel {
    /// Name of the pod.
    pub pod_name: String,
    /// Whether there turned out to be no such pod, so that nothing is labelled any more.
    pub disabled: bool,
}

/// The own label is as it should be: it was set, or there is no pod to set it on.
pub open spec fn own_settled(reply: PatchReply) -> bool {
    reply is Applied || reply == PatchReply::Refused(404)
}

impl LeaderLabel {
    /// The label of the pod with this name.
    pub fn new(pod_name: String) -> (r: Self)
        ensures
            r.pod_name == pod_name,
            !r.disabled,
    {
        LeaderLabel { pod_name, disabled: false }
    }

    /// Take in what came of setting the own label; whether it is as it should be. Where there is
    /// no such pod, nothing is labelled any more.
    pub fn own_label_set(&mut self, reply: PatchReply) -> (r: bool)
        ensures
            r == own_settled(reply),
            final(self).pod_name == old(self).pod_name,
            final(self).disabled == (old(self).disabled || reply == PatchReply::Refused(404)),
    {
        match reply {
            PatchReply::Applied => true,
            PatchReply::Refused(code) => if code == 404 {
                self.disabled = true;
                true
            } else {
                false
            },
            PatchReply::Lost => false,
        }
    }

    /// The pods other than the own that carry the label, of those with a name.
    pub fn stale_pods(&self, labelled: &Vec<Option<String>>) -> (r: Vec<String>)
        ensures
            texts(r@) == stale_names(labelled@, self.pod_name@),
    {
        let ghost all = names_of(labelled@);
        let ghost keep = |n: Seq<char>| is_other(n, self.pod_name@);
        let mut out: Vec<String> = Vec::new();
        let mut i: usize = 0;
        assert(all.take(0).filter(keep) =~= Seq::<Seq<char>>::empty()) by {
            reveal_with_fuel(Seq::filter, 1);
        }
        assert(texts(out@) =~= Seq::<Seq<char>>::empty());
        while i < labelled.len()
            invariant
                i <= labelled.len(),
                all == names_of(labelled@),
                keep == (|n: Seq<char>| is_other(n, self.pod_name@)),
                texts(out@) == all.take(i as int).filter(keep),
            decreases labelled.len() - i,
        {
            let ghost before = out@;
            let ghost s = all.take(i as int);
            proof {
                assert(all.take(i + 1) =~= s.push(all[i as int]));
                s.lemma_filter_push(all[i as int], keep);
            }
            let name = str_or(&labelled[i], "");
            if !name.is_empty() && !str_eq(name, self.pod_name.as_str()) {
                out.push(name.to_owned());
                assert(texts(out@) =~= texts(before).push(all[i as int]));
            }
            i = i + 1;
        }
        assert(all.take(i as int) =~= all);
        out
    }
}

/// The names of pods; empty for one without a name.
pub open spec fn names_of(v: Seq<Option<String>>) -> Seq<Seq<char>> {
    Seq::new(v.len(), |i: int| text_or(v[i], ""@))
}

/// The name of a pod other than `me`.
pub open spec fn is_other(n: Seq<char>, me: Seq<char>) -> bool {
    n.len() > 0 && n != me
}

/// The names of the pods that carry the label and are not the pod `me`.
pub open spec fn stale_names(v: Seq<Option<String>>, me: Seq<char>) -> Seq<Seq<char>> {
    names_of(v).filter(|n: Seq<char>| is_other(n, me))
}

/// The labels are as they should be.
pub open spec fn labels_settled(
    disabled: bool,
    leading: bool,
    own: bool,
    others: Option<Seq<PatchReply>>,
) -> bool {
    disabled || (own && (leading ==> others is Some && forall|i: int|
        0 <= i < others->0.len() ==> (#[trigger] others->0[i]) is Applied))
}

/// How long to wait, in nanoseconds, before the labels are looked at again.
pub open spec fn wait_nanos(settled: bool) -> int {
    if settled {
        REAFFIRM * SECOND
    } else {
        RETRY * SECOND
    }
}

/// Whether the labels are as they should be. `own` says that of the own label. A leader also has
/// to have found the other pods with the label, and taken it from each of them; `others` is none
/// where they could not be listed.
pub fn converged(disabled: bool, leading: bool, own: bool, others: &Option<Vec<PatchReply>>) -> (r:
    bool)
    ensures
        r == labels_settled(
            disabled,
            leading,
            own,
            match others {
                Some(v) => Some(v@),
                None => None,
            },
        ),
{
    if disabled {
        return true;
    }
    if !own {
        return false;
    }
    if !leading {
        return true;
    }
    match others {
        None => false,
        Some(replies) => {
            let mut ok = true;
            let mut i: usize = 0;
            while i < replies.len()
                invariant
                    i <= replies.len(),
                    ok == forall|j: int| 0 <= j < i ==> (#[trigger] replies@[j]) is Applied,
                decreases replies.len() - i,
            {
                match replies[i] {
                    PatchReply::Applied => {},
                    _ => {
                        ok = false;
                    },
                }
                i = i + 1;
            }
            ok
        },
    }
}

/// How long to wait before the labels are looked at again.
pub fn wait_after(converged: bool) -> (r: Period)
    ensures
        r.nanos == wait_nanos(converged),
{
    if converged {
        Period::from_secs(REAFFIRM)
    } else {
        Period::from_secs(RETRY)
    }
}

} // verus!
