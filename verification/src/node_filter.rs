//! Which tainted nodes the per-node Jobs may run on.
//!
//! Pinning a pod with `spec.nodeName` bypasses the scheduler, so the admission that a
//! DaemonSet would get from it is decided here, from the template's own tolerations and
//! from those that the DaemonSet controller adds to every pod.

use crate::objects;
use crate::objects::{Node, Taint};
use crate::text;
use vstd::prelude::*;
use vstd::string::*;

verus! {

/// A toleration of a pod (`spec.tolerations`).
#[derive(Debug, Clone, PartialEq, Eq)]
pub struct Toleration {
    pub key: Option<String>,
    pub operator: Option<String>,
    pub value: Option<String>,
    pub effect: Option<String>,
    pub toleration_seconds: Option<i64>,
}

/// What a toleration is.
pub ghost struct TolerationModel {
    pub key: Option<Seq<char>>,
    pub operator: Option<Seq<char>>,
    pub value: Option<Seq<char>>,
    pub effect: Option<Seq<char>>,
    pub toleration_seconds: Option<i64>,
}

impl View for Toleration {
    type V = TolerationModel;

    open spec fn view(&self) -> TolerationModel {
        TolerationModel {
            key: text::opt_text(self.key),
            operator: text::opt_text(self.operator),
            value: text::opt_text(self.value),
            effect: text::opt_text(self.effect),
            toleration_seconds: self.toleration_seconds,
        }
    }
}

/// The views of a list of tolerations.
pub open spec fn toleration_models(list: Seq<Toleration>) -> Seq<TolerationModel> {
    list.map_values(|t: Toleration| t@)
}

/// What decides which nodes a pod may run on.
#[derive(Debug)]
pub struct PodAdmission {
    pub tolerations: Vec<Toleration>,
    pub host_network: bool,
}

/// A node that was left out, and the first taint that keeps pods off it.
#[derive(Debug)]
pub struct SkippedNode {
    pub name: String,
    pub taint: Taint,
}

/// A text that may be missing; a missing one is empty.
pub open spec fn or_blank(content: Option<Seq<char>>) -> Seq<char> {
    match content {
        Some(content) => content,
        None => Seq::empty(),
    }
}

/// Whether a toleration is for a taint: an empty key or effect is for any, an empty
/// operator is `Equal`, and `Exists` is for any value.
pub open spec fn tolerates(toleration: TolerationModel, taint: objects::TaintModel) -> bool {
    let key = or_blank(toleration.key);
    let effect = or_blank(toleration.effect);
    let operator = or_blank(toleration.operator);
    &&& effect.len() == 0 || effect == taint.effect
    &&& key.len() == 0 || key == taint.key
    &&& if operator == "Exists"@ {
        true
    } else if operator.len() == 0 || operator == "Equal"@ {
        or_blank(toleration.value) == or_blank(taint.value)
    } else {
        false
    }
}

/// Whether the DaemonSet controller tolerates a taint for every pod.
pub open spec fn always_tolerated(taint: objects::TaintModel, host_network: bool) -> bool {
    ||| taint.effect == "NoExecute"@ && (taint.key == "node.kubernetes.io/not-ready"@ || taint.key
        == "node.kubernetes.io/unreachable"@)
    ||| taint.effect == "NoSchedule"@ && (taint.key == "node.kubernetes.io/disk-pressure"@
        || taint.key == "node.kubernetes.io/memory-pressure"@ || taint.key
        == "node.kubernetes.io/pid-pressure"@ || taint.key == "node.kubernetes.io/unschedulable"@
        || (host_network && taint.key == "node.kubernetes.io/network-unavailable"@))
}

/// Whether some toleration of the pod is for a taint.
pub open spec fn any_tolerates(
    tolerations: Seq<TolerationModel>,
    taint: objects::TaintModel,
) -> bool {
    exists|i: int| 0 <= i < tolerations.len() && #[trigger] tolerates(tolerations[i], taint)
}

/// Whether a taint keeps a pod off its node. One that only prefers to does not.
pub open spec fn blocks(taint: objects::TaintModel, admission: PodAdmission) -> bool {
    &&& taint.effect == "NoSchedule"@ || taint.effect == "NoExecute"@
    &&& !always_tolerated(taint, admission.host_network)
    &&& !any_tolerates(toleration_models(admission.tolerations@), taint)
}

/// Whether no taint of a node keeps a pod off it.
pub open spec fn admits(taints: Seq<objects::TaintModel>, admission: PodAdmission) -> bool {
    forall|i: int| 0 <= i < taints.len() ==> !blocks(#[trigger] taints[i], admission)
}

/// Whether a taint is the first that keeps a pod off a node.
pub open spec fn is_first_blocker(
    taints: Seq<objects::TaintModel>,
    admission: PodAdmission,
    taint: objects::TaintModel,
) -> bool {
    exists|i: int|
        {
            &&& 0 <= i < taints.len()
            &&& #[trigger] taints[i] == taint
            &&& blocks(taint, admission)
            &&& forall|j: int| 0 <= j < i ==> !blocks(#[trigger] taints[j], admission)
        }
}

/// A text that may be missing as a borrowed one; a missing one is empty.
fn blank_or(content: &Option<String>) -> (r: &str)
    ensures
        r@ == or_blank(text::opt_text(*content)),
{
    match content {
        Some(content) => content.as_str(),
        None => {
            proof {
                reveal_strlit("");
                assert(""@ =~= Seq::<char>::empty());
            }
            ""
        },
    }
}

/// Whether a toleration is for a taint.
fn is_for(toleration: &Toleration, taint: &Taint) -> (r: bool)
    ensures
        r == tolerates(toleration@, taint@),
{
    let key: &str = blank_or(&toleration.key);
    let effect: &str = blank_or(&toleration.effect);
    let operator: &str = blank_or(&toleration.operator);
    if !effect.is_empty() && !text::same(effect, taint.effect.as_str()) {
        return false;
    }
    if !key.is_empty() && !text::same(key, taint.key.as_str()) {
        return false;
    }
    if text::same(operator, "Exists") {
        true
    } else if operator.is_empty() || text::same(operator, "Equal") {
        text::same(blank_or(&toleration.value), blank_or(&taint.value))
    } else {
        false
    }
}

/// Whether a taint keeps a pod off its node.
fn keeps_off(taint: &Taint, admission: &PodAdmission) -> (r: bool)
    ensures
        r == blocks(taint@, *admission),
{
    let key: &str = taint.key.as_str();
    let effect: &str = taint.effect.as_str();
    let schedule: bool = text::same(effect, "NoSchedule");
    let execute: bool = text::same(effect, "NoExecute");
    if !schedule && !execute {
        return false;
    }
    if execute && (text::same(key, "node.kubernetes.io/not-ready") || text::same(
        key,
        "node.kubernetes.io/unreachable",
    )) {
        return false;
    }
    if schedule && (text::same(key, "node.kubernetes.io/disk-pressure") || text::same(
        key,
        "node.kubernetes.io/memory-pressure",
    ) || text::same(key, "node.kubernetes.io/pid-pressure") || text::same(
        key,
        "node.kubernetes.io/unschedulable",
    ) || (admission.host_network && text::same(key, "node.kubernetes.io/network-unavailable"))) {
        return false;
    }
    let ghost all = toleration_models(admission.tolerations@);
    let mut i: usize = 0;
    while i < admission.tolerations.len()
        invariant
            i <= admission.tolerations@.len(),
            all == toleration_models(admission.tolerations@),
            forall|j: int| 0 <= j < i ==> !#[trigger] tolerates(all[j], taint@),
        decreases admission.tolerations@.len() - i,
    {
        if is_for(&admission.tolerations[i], taint) {
            assert(tolerates(all[i as int], taint@));
            return false;
        }
        i = i + 1;
    }
    true
}

/// The first taint of a node that keeps a pod off it.
#[verifier::loop_isolation(false)]
pub fn first_blocker(node: &Node, admission: &PodAdmission) -> (r: Option<Taint>)
    ensures
        match r {
            Some(taint) => is_first_blocker(
                objects::taint_models(node.taints),
                *admission,
                taint@,
            ),
            None => admits(objects::taint_models(node.taints), *admission),
        },
{
    let taints: &Vec<Taint> = match &node.taints {
        Some(taints) => taints,
        None => {
            return None;
        },
    };
    let ghost all = objects::taint_models(node.taints);
    let mut i: usize = 0;
    while i < taints.len()
        invariant
            i <= taints@.len(),
            forall|j: int| 0 <= j < i ==> !blocks(#[trigger] all[j], *admission),
        decreases taints@.len() - i,
    {
        assert(all[i as int] == taints@[i as int]@);
        if keeps_off(&taints[i], admission) {
            return Some(taints[i].clone());
        }
        i = i + 1;
    }
    None
}

/// The named nodes that a pod may run on.
pub open spec fn admitted_names(nodes: Seq<Node>, admission: PodAdmission) -> Seq<Seq<char>>
    decreases nodes.len(),
{
    if nodes.len() == 0 {
        Seq::empty()
    } else {
        let rest = admitted_names(nodes.drop_last(), admission);
        match nodes.last().name {
            Some(name) => if admits(objects::taint_models(nodes.last().taints), admission) {
                rest.push(name@)
            } else {
                rest
            },
            None => rest,
        }
    }
}

/// The named nodes that a pod may not run on.
pub open spec fn blocked_nodes(nodes: Seq<Node>, admission: PodAdmission) -> Seq<Node>
    decreases nodes.len(),
{
    if nodes.len() == 0 {
        Seq::empty()
    } else {
        let rest = blocked_nodes(nodes.drop_last(), admission);
        if nodes.last().name is Some && !admits(
            objects::taint_models(nodes.last().taints),
            admission,
        ) {
            rest.push(nodes.last())
        } else {
            rest
        }
    }
}

/// Whether what was skipped is a node, with the first taint that keeps pods off it.
pub open spec fn is_skipped(skipped: SkippedNode, node: Node, admission: PodAdmission) -> bool {
    &&& node.name matches Some(name) && name@ == skipped.name@
    &&& is_first_blocker(objects::taint_models(node.taints), admission, skipped.taint@)
}

/// Tells the nodes that a pod may run on from those that it may not. A node without a
/// name is neither.
pub fn partition_by_tolerations(nodes: &[Node], admission: &PodAdmission) -> (r: (
    Vec<String>,
    Vec<SkippedNode>,
))
    ensures
        text::texts(r.0@) == admitted_names(nodes@, *admission),
        r.1@.len() == blocked_nodes(nodes@, *admission).len(),
        forall|i: int|
            0 <= i < r.1@.len() ==> is_skipped(
                #[trigger] r.1@[i],
                blocked_nodes(nodes@, *admission)[i],
                *admission,
            ),
{
    let mut admitted: Vec<String> = Vec::new();
    let mut skipped: Vec<SkippedNode> = Vec::new();
    let mut i: usize = 0;
    assert(text::texts(admitted@) =~= admitted_names(nodes@.take(0), *admission));
    while i < nodes.len()
        invariant
            i <= nodes@.len(),
            text::texts(admitted@) == admitted_names(nodes@.take(i as int), *admission),
            skipped@.len() == blocked_nodes(nodes@.take(i as int), *admission).len(),
            forall|j: int|
                0 <= j < skipped@.len() ==> is_skipped(
                    #[trigger] skipped@[j],
                    blocked_nodes(nodes@.take(i as int), *admission)[j],
                    *admission,
                ),
        decreases nodes@.len() - i,
    {
        let ghost before = admitted@;
        proof {
            assert(nodes@.take(i + 1).drop_last() =~= nodes@.take(i as int));
            assert(nodes@.take(i + 1).last() == nodes@[i as int]);
        }
        if let Some(name) = &nodes[i].name {
            match first_blocker(&nodes[i], admission) {
                Some(taint) => {
                    skipped.push(SkippedNode { name: name.clone(), taint });
                },
                None => {
                    admitted.push(name.clone());
                    assert(text::texts(admitted@) =~= text::texts(before).push(name@));
                },
            }
        }
        i = i + 1;
    }
    assert(nodes@.take(nodes@.len() as int) =~= nodes@);
    (admitted, skipped)
}

/// A taint as messages say it.
pub open spec fn taint_text(taint: objects::TaintModel) -> Seq<char> {
    taint.key + ":"@ + taint.effect
}

/// A taint as messages say it.
pub fn describe_taint(taint: &Taint) -> (r: String)
    ensures
        r@ == taint_text(taint@),
{
    taint.key.clone().concat(":").concat(taint.effect.as_str())
}

/// The toleration that a template would need, as YAML.
pub open spec fn toleration_text(taint: objects::TaintModel) -> Seq<char> {
    "- key: "@ + taint.key + "\n  operator: Exists\n  effect: "@ + taint.effect
}

/// The toleration that a template would need, as YAML.
pub fn suggested_toleration(taint: &Taint) -> (r: String)
    ensures
        r@ == toleration_text(taint@),
{
    "- key: ".to_string().concat(taint.key.as_str()).concat("\n  operator: Exists\n  effect: ").concat(
        taint.effect.as_str(),
    )
}

/// Every named node is either admitted or blocked.
pub proof fn law_every_named_node_is_told_apart(nodes: Seq<Node>, admission: PodAdmission)
    ensures
        admitted_names(nodes, admission).len() + blocked_nodes(nodes, admission).len()
            == nodes.filter(|node: Node| node.name is Some).len(),
    decreases nodes.len(),
{
    reveal_with_fuel(Seq::filter, 1);
    if nodes.len() > 0 {
        law_every_named_node_is_told_apart(nodes.drop_last(), admission);
    }
}

/// More tolerations never shut a node out.
pub proof fn law_tolerations_only_let_in(
    taints: Seq<objects::TaintModel>,
    fewer: PodAdmission,
    more: PodAdmission,
)
    requires
        admits(taints, fewer),
        fewer.host_network ==> more.host_network,
        forall|t: TolerationModel|
            toleration_models(fewer.tolerations@).contains(t) ==> #[trigger] toleration_models(
                more.tolerations@,
            ).contains(t),
    ensures
        admits(taints, more),
{
    let few = toleration_models(fewer.tolerations@);
    let many = toleration_models(more.tolerations@);
    assert forall|i: int| 0 <= i < taints.len() implies !blocks(#[trigger] taints[i], more) by {
        assert(!blocks(taints[i], fewer));
        if any_tolerates(few, taints[i]) {
            let k = choose|k: int|
                0 <= k < few.len() && #[trigger] tolerates(few[k], taints[i]);
            assert(few.contains(few[k]));
            assert(many.contains(few[k]));
            let m = choose|m: int| 0 <= m < many.len() && many[m] == few[k];
            assert(tolerates(many[m], taints[i]));
        }
    }
}

/// A part of a toleration that is left out, or left empty, is for anything.
pub open spec fn leaves_open(part: Option<Seq<char>>) -> bool {
    part is None || part == Some(Seq::<char>::empty())
}

/// Whether a toleration and a taint have the same value, where a missing one is empty.
pub open spec fn same_value(one: Option<Seq<char>>, other: Option<Seq<char>>) -> bool {
    one == other || (leaves_open(one) && leaves_open(other))
}

/// A toleration with the operator `Equal`, or with none, is for the taints with its value,
/// whatever the value is, and for no others; as far as it names a key and an effect, they are
/// the taint's.
pub proof fn law_equal_tolerations_go_by_the_value(
    toleration: TolerationModel,
    taint: objects::TaintModel,
)
    requires
        leaves_open(toleration.operator) || toleration.operator == Some("Equal"@),
    ensures
        tolerates(toleration, taint) <==> {
            &&& leaves_open(toleration.key) || toleration.key == Some(taint.key)
            &&& leaves_open(toleration.effect) || toleration.effect == Some(taint.effect)
            &&& same_value(toleration.value, taint.value)
        },
{
    reveal_strlit("Equal");
    reveal_strlit("Exists");
    assert("Exists"@.len() != "Equal"@.len());
    lemma_blank(toleration.key);
    lemma_blank(toleration.effect);
    lemma_blank(toleration.operator);
    lemma_blank(toleration.value);
    lemma_blank(taint.value);
}

/// A toleration with the operator `Exists` is for taints of any value.
pub proof fn law_exists_tolerations_go_by_key_and_effect(
    toleration: TolerationModel,
    taint: objects::TaintModel,
)
    requires
        toleration.operator == Some("Exists"@),
    ensures
        tolerates(toleration, taint) <==> {
            &&& leaves_open(toleration.key) || toleration.key == Some(taint.key)
            &&& leaves_open(toleration.effect) || toleration.effect == Some(taint.effect)
        },
{
    lemma_blank(toleration.key);
    lemma_blank(toleration.effect);
}

/// A toleration with an operator that is neither is for nothing.
pub proof fn law_unknown_operators_tolerate_nothing(
    toleration: TolerationModel,
    taint: objects::TaintModel,
)
    requires
        !leaves_open(toleration.operator),
        toleration.operator != Some("Equal"@),
        toleration.operator != Some("Exists"@),
    ensures
        !tolerates(toleration, taint),
{
    lemma_blank(toleration.operator);
}

/// What is left out is empty.
proof fn lemma_blank(part: Option<Seq<char>>)
    ensures
        leaves_open(part) <==> or_blank(part).len() == 0,
        part is Some ==> part == Some(or_blank(part)),
        or_blank(part).len() == 0 ==> or_blank(part) == Seq::<char>::empty(),
{
    if or_blank(part).len() == 0 {
        assert(or_blank(part) =~= Seq::empty());
    }
}

/// A node without a taint that forbids pods takes any pod; so does one whose forbidding
/// taints each have a toleration of the pod that is for them, wherever in its list.
pub proof fn law_tolerated_nodes_are_admitted(
    taints: Seq<objects::TaintModel>,
    admission: PodAdmission,
)
    requires
        forall|i: int|
            0 <= i < taints.len() && ((#[trigger] taints[i]).effect == "NoSchedule"@
                || taints[i].effect == "NoExecute"@) ==> exists|k: int|
                0 <= k < admission.tolerations@.len() && tolerates(
                    #[trigger] admission.tolerations@[k]@,
                    taints[i],
                ),
    ensures
        admits(taints, admission),
{
    let all = toleration_models(admission.tolerations@);
    assert forall|i: int| 0 <= i < taints.len() implies !blocks(#[trigger] taints[i], admission) by {
        if taints[i].effect == "NoSchedule"@ || taints[i].effect == "NoExecute"@ {
            let k = choose|k: int|
                0 <= k < admission.tolerations@.len() && tolerates(
                    #[trigger] admission.tolerations@[k]@,
                    taints[i],
                );
            assert(all[k] == admission.tolerations@[k]@);
            assert(tolerates(all[k], taints[i]));
        }
    }
}

/// The taints that the DaemonSet controller tolerates for every pod shut no node: what the
/// node lifecycle puts on a node that is unready, unreachable, short of something or
/// cordoned, and one without a network for pods that use the host's.
pub open spec fn comes_from_the_lifecycle(taint: objects::TaintModel, host_network: bool) -> bool {
    ||| taint.effect == "NoExecute"@ && [
        "node.kubernetes.io/not-ready"@,
        "node.kubernetes.io/unreachable"@,
    ]@.contains(taint.key)
    ||| taint.effect == "NoSchedule"@ && [
        "node.kubernetes.io/disk-pressure"@,
        "node.kubernetes.io/memory-pressure"@,
        "node.kubernetes.io/pid-pressure"@,
        "node.kubernetes.io/unschedulable"@,
    ]@.contains(taint.key)
    ||| taint.effect == "NoSchedule"@ && host_network && taint.key
        == "node.kubernetes.io/network-unavailable"@
}

/// A node is shut exactly where one of its taints forbids pods, does not come from the node
/// lifecycle, and has no toleration of the pod that is for it. One that merely prefers
/// other nodes shuts none.
pub proof fn law_a_node_is_shut_by_an_untolerated_taint(
    taints: Seq<objects::TaintModel>,
    admission: PodAdmission,
)
    ensures
        !admits(taints, admission) <==> exists|i: int|
            {
                &&& 0 <= i < taints.len()
                &&& (#[trigger] taints[i]).effect == "NoSchedule"@ || taints[i].effect
                    == "NoExecute"@
                &&& !comes_from_the_lifecycle(taints[i], admission.host_network)
                &&& forall|k: int|
                    0 <= k < admission.tolerations@.len() ==> !tolerates(
                        #[trigger] admission.tolerations@[k]@,
                        taints[i],
                    )
            },
{
    let all = toleration_models(admission.tolerations@);
    assert forall|i: int| 0 <= i < taints.len() implies (blocks(#[trigger] taints[i], admission)
        <==> {
        &&& taints[i].effect == "NoSchedule"@ || taints[i].effect == "NoExecute"@
        &&& !comes_from_the_lifecycle(taints[i], admission.host_network)
        &&& forall|k: int|
            0 <= k < admission.tolerations@.len() ==> !tolerates(
                #[trigger] admission.tolerations@[k]@,
                taints[i],
            )
    }) by {
        let taint = taints[i];
        let hard = [
            "node.kubernetes.io/not-ready"@,
            "node.kubernetes.io/unreachable"@,
        ]@;
        let soft = [
            "node.kubernetes.io/disk-pressure"@,
            "node.kubernetes.io/memory-pressure"@,
            "node.kubernetes.io/pid-pressure"@,
            "node.kubernetes.io/unschedulable"@,
        ]@;
        assert(hard[0] == "node.kubernetes.io/not-ready"@);
        assert(hard[1] == "node.kubernetes.io/unreachable"@);
        assert(soft[0] == "node.kubernetes.io/disk-pressure"@);
        assert(soft[1] == "node.kubernetes.io/memory-pressure"@);
        assert(soft[2] == "node.kubernetes.io/pid-pressure"@);
        assert(soft[3] == "node.kubernetes.io/unschedulable"@);
        assert(comes_from_the_lifecycle(taint, admission.host_network) <==> always_tolerated(
            taint,
            admission.host_network,
        ));
        assert(forall|k: int| 0 <= k < all.len() ==> #[trigger] all[k] == admission.tolerations@[k]@);
        if any_tolerates(all, taint) {
            let k = choose|k: int| 0 <= k < all.len() && #[trigger] tolerates(all[k], taint);
            assert(tolerates(admission.tolerations@[k]@, taint));
        } else {
            assert forall|k: int| 0 <= k < admission.tolerations@.len() implies !tolerates(
                #[trigger] admission.tolerations@[k]@,
                taint,
            ) by {
                assert(!tolerates(all[k], taint));
            }
        }
    }
    if !admits(taints, admission) {
        let i = choose|i: int| 0 <= i < taints.len() && blocks(#[trigger] taints[i], admission);
        assert(blocks(taints[i], admission));
    }
}

/// Of every named node, the name is admitted where no taint shuts the node, and the node is
/// blocked where one does; both in the order of the nodes, and nothing else is either.
pub proof fn law_named_nodes_go_where_their_taints_say(nodes: Seq<Node>, admission: PodAdmission)
    ensures
        admitted_names(nodes, admission) == nodes.filter(
            |node: Node|
                node.name is Some && admits(objects::taint_models(node.taints), admission),
        ).map_values(|node: Node| node.name->0@),
        blocked_nodes(nodes, admission) == nodes.filter(
            |node: Node|
                node.name is Some && !admits(objects::taint_models(node.taints), admission),
        ),
    decreases nodes.len(),
{
    reveal_with_fuel(Seq::filter, 1);
    let open = |node: Node|
        node.name is Some && admits(objects::taint_models(node.taints), admission);
    let named = |node: Node| node.name->0@;
    if nodes.len() > 0 {
        law_named_nodes_go_where_their_taints_say(nodes.drop_last(), admission);
        let rest = nodes.drop_last().filter(open);
        assert(rest.push(nodes.last()).map_values(named) =~= rest.map_values(named).push(
            named(nodes.last()),
        ));
    } else {
        assert(admitted_names(nodes, admission) =~= nodes.filter(open).map_values(named));
    }
}

/// A toleration is modelled by everything that it says.
pub proof fn law_tolerations_are_modelled_whole(toleration: Toleration)
    ensures
        toleration.key matches Some(key) ==> toleration@.key == Some(key@),
        toleration.key is None ==> toleration@.key is None,
        toleration.operator matches Some(operator) ==> toleration@.operator == Some(operator@),
        toleration.operator is None ==> toleration@.operator is None,
        toleration.value matches Some(value) ==> toleration@.value == Some(value@),
        toleration.value is None ==> toleration@.value is None,
        toleration.effect matches Some(effect) ==> toleration@.effect == Some(effect@),
        toleration.effect is None ==> toleration@.effect is None,
{
}

/// The taint that a skipped node is reported with keeps pods off it, and none before it does.
pub proof fn law_a_skipped_node_is_blamed_on_its_first_taint(
    taints: Seq<objects::TaintModel>,
    admission: PodAdmission,
    taint: objects::TaintModel,
)
    requires
        is_first_blocker(taints, admission, taint),
    ensures
        exists|i: int|
            {
                &&& 0 <= i < taints.len()
                &&& #[trigger] taints[i] == taint
                &&& !admits(seq![taint], admission)
                &&& admits(taints.take(i), admission)
            },
        !admits(taints, admission),
{
    let i = choose|i: int|
        {
            &&& 0 <= i < taints.len()
            &&& #[trigger] taints[i] == taint
            &&& blocks(taint, admission)
            &&& forall|j: int| 0 <= j < i ==> !blocks(#[trigger] taints[j], admission)
        };
    assert(seq![taint][0] == taint);
    assert forall|j: int| 0 <= j < taints.take(i).len() implies !blocks(
        #[trigger] taints.take(i)[j],
        admission,
    ) by {
        assert(taints.take(i)[j] == taints[j]);
    }
}

} // verus!
