//! The last look at a node before its Job is created.
//!
//! Selection happened at least one Job ago, and a name can by now belong to a different
//! machine, to a node outside the selection, or to one that has become untouchable.

use crate::args::Args;
use crate::guarded;
use crate::node_filter;
use crate::node_filter::PodAdmission;
use crate::node_ops::NodeOps;
use crate::nodes;
use crate::nodes::NodeFacts;
use crate::objects;
use crate::objects::{ApiError, Node};
use crate::text;
use vstd::prelude::*;
use vstd::string::*;

verus! {

/// Who a selected node is.
#[derive(Debug)]
pub enum Identity {
    /// It has no name, so nothing can be dispatched to it.
    Nameless,
    /// It has no UID, and why nothing is dispatched to it.
    Unknown { name: String, reason: String },
    /// It has both.
    Known { name: String, uid: String },
}

/// What is said of a selected node without a UID.
pub open spec fn no_uid_text() -> Seq<char> {
    "the selected Node has no UID; refusing to dispatch to it"@
}

/// Who a selected node is.
pub fn identify(selected: &Node) -> (r: Identity)
    ensures
        match (selected.name, selected.uid) {
            (None, _) => r is Nameless,
            (Some(n), None) => r matches Identity::Unknown { name, reason } && name@ == n@
                && reason@ == no_uid_text(),
            (Some(n), Some(u)) => r matches Identity::Known { name, uid } && name@ == n@ && uid@
                == u@,
        },
{
    match (&selected.name, &selected.uid) {
        (None, _) => Identity::Nameless,
        (Some(name), None) => Identity::Unknown {
            name: name.clone(),
            reason: "the selected Node has no UID; refusing to dispatch to it".to_string(),
        },
        (Some(name), Some(uid)) => Identity::Known { name: name.clone(), uid: uid.clone() },
    }
}

/// The UID that a node was selected as.
pub fn uid_of(node: Option<&Node>) -> (r: Option<&str>)
    ensures
        text::opt_str(r) == (match node {
            Some(node) => text::opt_text(node.uid),
            None => None,
        }),
{
    match node {
        Some(node) => match &node.uid {
            Some(uid) => Some(uid.as_str()),
            None => None,
        },
        None => None,
    }
}

/// What came of reading a node again.
#[derive(Debug)]
pub enum Reread {
    /// It is the machine that was selected.
    Same(Node),
    /// It could not be read, and what is said of it.
    Unread { reason: String },
    /// Another machine answers to its name, which was never acted on, and what is said of
    /// it.
    Replaced { reason: String },
}

/// What is said of a node that could not be read again.
pub open spec fn reread_text(node: Seq<char>, message: Seq<char>) -> Seq<char> {
    "could not re-read it before dispatch ("@ + guarded::unread_text(node, message) + ")"@
}

/// What is said of a name that another machine answers to.
pub open spec fn replaced_text(expected: Seq<char>, found: Option<Seq<char>>) -> Seq<char> {
    "was selected as UID "@ + expected + " but now has UID "@ + text::debug_option(found)
        + "; refusing to mutate a replacement machine under a stale identity"@
}

/// What reading a node again comes to.
pub open spec fn reread_gives(
    node: Seq<char>,
    expected_uid: Seq<char>,
    fetched: Result<Node, ApiError>,
    r: Reread,
) -> bool {
    match fetched {
        Err(error) => r matches Reread::Unread { reason } && reason@ == reread_text(
            node,
            error.message@,
        ),
        Ok(fresh) => if text::opt_text(fresh.uid) == Some(expected_uid) {
            r == Reread::Same(fresh)
        } else {
            r matches Reread::Replaced { reason } && reason@ == replaced_text(
                expected_uid,
                text::opt_text(fresh.uid),
            )
        },
    }
}

/// Makes sure that a node is still the machine that was selected.
pub fn reread(node: &str, expected_uid: &str, fetched: Result<Node, ApiError>) -> (r: Reread)
    ensures
        reread_gives(node@, expected_uid@, fetched, r),
{
    let fresh: Node = match fetched {
        Ok(fresh) => fresh,
        Err(error) => {
            let unread: String = guarded::say_unread(node, error.message.as_str());
            return Reread::Unread {
                reason: "could not re-read it before dispatch (".to_string().concat(
                    unread.as_str(),
                ).concat(")"),
            };
        },
    };
    let same: bool = match &fresh.uid {
        Some(uid) => text::same(uid.as_str(), expected_uid),
        None => false,
    };
    if same {
        Reread::Same(fresh)
    } else {
        Reread::Replaced {
            reason: "was selected as UID ".to_string().concat(expected_uid).concat(
                " but now has UID ",
            ).concat(text::quoted_option(&fresh.uid).as_str()).concat(
                "; refusing to mutate a replacement machine under a stale identity",
            ),
        }
    }
}

/// What the last look at a node comes to.
#[derive(Debug)]
pub enum Vetting {
    /// It re-entered the selection before it could be cleaned: leave it as it is.
    LeaveAlone,
    /// Nothing is dispatched to it, and why.
    Refuse { reason: String },
    /// Dispatch to it, with these facts.
    Go(NodeFacts),
}

/// What is said of a node that left the selection. Left alone rather than cleaned up there
/// and then: a selection changing under a running rollout is not an instruction to
/// dismantle a host. A later run starts by cleaning what it owns but no longer selects, and
/// picks this node up if it is still out.
pub open spec fn left_selection_text() -> Seq<char> {
    "no longer matches the selection; refusing to act on a stale selection, leaving the node as it is"@
}

/// What is said of a node that was tainted in between.
pub open spec fn tainted_text(taint: Seq<char>) -> Seq<char> {
    "acquired the untolerated taint "@ + taint
        + " before dispatch; refusing to start a Job the taint manager would evict"@
}

/// What is said of a node whose runtime is not known.
pub open spec fn no_runtime_text() -> Seq<char> {
    "reports no containerRuntimeVersion and --require-node-runtime-version is set"@
}

/// What is said of a node whose machine is not known.
pub open spec fn no_machine_text() -> Seq<char> {
    "reports no machineID and --require-node-machine-id is set, so a token-free Job could not defend against node-name reuse"@
}

/// Whether a run minds taints. Whoever ignores them asked for every selected node to be acted
/// on whatever it carries. So did whoever names the nodes, but only of those: the pass that
/// cleans removed nodes acts on nodes that the list does not name.
pub open spec fn minds_taints(args: Args) -> bool {
    !args.ignore_node_taints && (args.nodes is None || args.removed_node_cleanup)
}

/// Whether taints keep the Job off a node, as far as the run minds taints.
pub open spec fn is_shut(args: Args, fresh: Node, admission: PodAdmission) -> bool {
    minds_taints(args) && (fresh.name is None || !node_filter::admits(
        objects::taint_models(fresh.taints),
        admission,
    ))
}

/// What is decided on a node that was read again.
pub open spec fn vetting_gives(
    args: Args,
    still_selected: bool,
    fresh: Node,
    admission: PodAdmission,
    r: Vetting,
) -> bool {
    if args.removed_node_cleanup && still_selected {
        r is LeaveAlone
    } else if !args.removed_node_cleanup && !still_selected {
        r matches Vetting::Refuse { reason } && reason@ == left_selection_text()
    } else if is_shut(args, fresh, admission) {
        r matches Vetting::Refuse { reason } && if fresh.name is None {
            reason@ == tainted_text("<unknown>"@)
        } else {
            exists|taint: objects::TaintModel|
                node_filter::is_first_blocker(
                    objects::taint_models(fresh.taints),
                    admission,
                    taint,
                ) && reason@ == tainted_text(#[trigger] node_filter::taint_text(taint))
        }
    } else if args.require_node_runtime_version && nodes::runtime_version_of(fresh) is None {
        r matches Vetting::Refuse { reason } && reason@ == no_runtime_text()
    } else if args.require_node_machine_id && nodes::machine_id_of(fresh) is None {
        r matches Vetting::Refuse { reason } && reason@ == no_machine_text()
    } else {
        r matches Vetting::Go(facts) && text::opt_text(facts.container_runtime_version)
            == nodes::runtime_version_of(fresh) && text::opt_text(facts.machine_id)
            == nodes::machine_id_of(fresh) && facts.name@ == (match fresh.name {
            Some(name) => name@,
            None => Seq::empty(),
        })
    }
}

/// Where a run acts on an explicit list of nodes, what is decided on a node does not depend on
/// its taints.
pub proof fn law_named_nodes_skip_taint_admission(
    args: Args,
    still_selected: bool,
    fresh: Node,
    taints: Option<Vec<objects::Taint>>,
    admission: PodAdmission,
    r: Vetting,
)
    requires
        args.nodes is Some,
        !args.removed_node_cleanup,
        vetting_gives(args, still_selected, fresh, admission, r),
    ensures
        vetting_gives(args, still_selected, (Node { taints, ..fresh }), admission, r),
        r matches Vetting::Refuse { reason } ==> reason@ == left_selection_text() || reason@
            == no_runtime_text() || reason@ == no_machine_text(),
{
}

/// Decides on a node that was read again.
pub fn revalidate(args: &Args, still_selected: bool, fresh: &Node, admission: &PodAdmission) -> (r:
    Vetting)
    ensures
        vetting_gives(*args, still_selected, *fresh, *admission, r),
{
    if args.removed_node_cleanup && still_selected {
        return Vetting::LeaveAlone;
    }
    if !args.removed_node_cleanup && !still_selected {
        return Vetting::Refuse {
            reason:
                "no longer matches the selection; refusing to act on a stale selection, leaving the node as it is".to_string(),
        };
    }
    if !args.ignore_node_taints && (args.nodes.is_none() || args.removed_node_cleanup) {
        let mut blocker: Option<String> = None;
        if fresh.name.is_none() {
            blocker = Some("<unknown>".to_string());
        } else if let Some(taint) = node_filter::first_blocker(fresh, admission) {
            blocker = Some(node_filter::describe_taint(&taint));
            proof {
                let all = objects::taint_models(fresh.taints);
                let i = choose|i: int|
                    {
                        &&& 0 <= i < all.len()
                        &&& #[trigger] all[i] == taint@
                        &&& node_filter::blocks(taint@, *admission)
                        &&& forall|j: int|
                            0 <= j < i ==> !node_filter::blocks(#[trigger] all[j], *admission)
                    };
                assert(node_filter::blocks(all[i], *admission));
            }
        }
        if let Some(taint) = blocker {
            return Vetting::Refuse {
                reason: "acquired the untolerated taint ".to_string().concat(taint.as_str()).concat(
                    " before dispatch; refusing to start a Job the taint manager would evict",
                ),
            };
        }
    }
    let facts: NodeFacts = NodeFacts::from_node(fresh);
    if args.require_node_runtime_version && facts.container_runtime_version.is_none() {
        return Vetting::Refuse {
            reason:
                "reports no containerRuntimeVersion and --require-node-runtime-version is set".to_string(),
        };
    }
    if args.require_node_machine_id && facts.machine_id.is_none() {
        return Vetting::Refuse {
            reason:
                "reports no machineID and --require-node-machine-id is set, so a token-free Job could not defend against node-name reuse".to_string(),
        };
    }
    Vetting::Go(facts)
}

/// What came of creating a Job.
#[derive(Debug)]
pub enum Creation {
    /// It is there.
    Created,
    /// Its name is taken: read the Job that has it, to adopt or replace it.
    Taken,
    /// It could not be created, and what is said of its node.
    Refused { reason: String },
}

/// What creating a Job comes to.
pub open spec fn creation_gives(job: Seq<char>, answer: Result<(), ApiError>, r: Creation) -> bool {
    match answer {
        Ok(_) => r is Created,
        Err(error) => if error.code == Some(409u16) {
            r is Taken
        } else {
            r matches Creation::Refused { reason } && reason@ == "its job "@ + job
                + " could not be created: "@ + error.message@
        },
    }
}

/// Decides on the answer to creating a Job.
pub fn creation(job: &str, answer: Result<(), ApiError>) -> (r: Creation)
    ensures
        creation_gives(job@, answer, r),
{
    match answer {
        Ok(_) => Creation::Created,
        Err(error) => {
            let taken: bool = match error.code {
                Some(code) => code == 409,
                None => false,
            };
            if taken {
                Creation::Taken
            } else {
                Creation::Refused {
                    reason: "its job ".to_string().concat(job).concat(
                        " could not be created: ",
                    ).concat(error.message.as_str()),
                }
            }
        },
    }
}

/// The nodes that no finished run shows on yet.
pub fn unsatisfied(ops: &NodeOps, listed: Vec<Node>) -> (r: Vec<Node>)
    ensures
        r@ == listed@.filter(
            |node: Node|
                !nodes::is_satisfied_node(
                    ops.labelling,
                    text::opt_text(ops.label_value),
                    text::texts(ops.require_handlers@),
                    node,
                ),
        ),
{
    let ghost given = listed@;
    let ghost open = |node: Node|
        !nodes::is_satisfied_node(
            ops.labelling,
            text::opt_text(ops.label_value),
            text::texts(ops.require_handlers@),
            node,
        );
    let mut left: Vec<Node> = Vec::new();
    proof {
        reveal_with_fuel(Seq::filter, 1);
        assert(left@ =~= given.take(0).filter(open));
    }
    for node in it: listed
        invariant
            it.seq() == given,
            open == (|node: Node|
                !nodes::is_satisfied_node(
                    ops.labelling,
                    text::opt_text(ops.label_value),
                    text::texts(ops.require_handlers@),
                    node,
                )),
            left@ == given.take(it.index() as int).filter(open),
    {
        proof {
            reveal_with_fuel(Seq::filter, 1);
            assert(given.take(it.index() + 1).drop_last() =~= given.take(it.index() as int));
            assert(given.take(it.index() + 1).last() == node);
        }
        if !ops.is_satisfied(&node) {
            left.push(node);
        }
    }
    assert(given.take(given.len() as int) =~= given);
    left
}

/// Which nodes a run dispatches to.
#[derive(Debug)]
pub enum Plan {
    /// None: nothing was selected.
    NothingSelected,
    /// None: a finished run shows on all of them.
    AllSatisfied { selected: usize },
    /// These, and how many of the selected ones are left alone.
    Roll { nodes: Vec<Node>, left_alone: usize },
}

/// The nodes of a selection that a run dispatches to: all of them, or those that no finished
/// run shows on yet.
pub open spec fn planned(args: Args, ops: NodeOps, selected: Seq<Node>) -> Seq<Node> {
    if args.skip_satisfied_nodes {
        selected.filter(
            |node: Node|
                !nodes::is_satisfied_node(
                    ops.labelling,
                    text::opt_text(ops.label_value),
                    text::texts(ops.require_handlers@),
                    node,
                ),
        )
    } else {
        selected
    }
}

/// Decides which of the selected nodes a run dispatches to.
pub fn plan(args: &Args, ops: &NodeOps, selected: Vec<Node>) -> (r: Plan)
    ensures
        ({
            let all = selected@;
            let rest = planned(*args, *ops, selected@);
            match r {
                Plan::NothingSelected => all.len() == 0,
                Plan::AllSatisfied { selected } => selected == all.len() && all.len() > 0
                    && rest.len() == 0,
                Plan::Roll { nodes, left_alone } => nodes@ == rest && rest.len() > 0 && left_alone
                    == all.len() - rest.len(),
            }
        }),
{
    let count: usize = selected.len();
    if count == 0 {
        return Plan::NothingSelected;
    }
    if !args.skip_satisfied_nodes {
        return Plan::Roll { nodes: selected, left_alone: 0 };
    }
    let ghost all = selected@;
    let rest: Vec<Node> = unsatisfied(ops, selected);
    proof {
        let open = |node: Node|
            !nodes::is_satisfied_node(
                ops.labelling,
                text::opt_text(ops.label_value),
                text::texts(ops.require_handlers@),
                node,
            );
        all.lemma_filter_len(open);
    }
    if rest.len() == 0 {
        return Plan::AllSatisfied { selected: count };
    }
    let left_alone: usize = count - rest.len();
    Plan::Roll { nodes: rest, left_alone }
}

/// A node that taints shut is refused right before its Job, where the run minds taints and
/// did not pick its nodes by name.
pub proof fn law_a_shut_node_gets_no_job(
    args: Args,
    still_selected: bool,
    fresh: Node,
    admission: PodAdmission,
    r: Vetting,
)
    requires
        vetting_gives(args, still_selected, fresh, admission, r),
        !args.ignore_node_taints,
        args.nodes is None,
        !node_filter::admits(objects::taint_models(fresh.taints), admission),
    ensures
        !(r is Go),
{
}

/// A node gets its Job only while it is selected, or only once it is not where removed nodes
/// are cleaned, and only where it reports what the run requires.
pub proof fn law_only_fit_nodes_get_a_job(
    args: Args,
    still_selected: bool,
    fresh: Node,
    admission: PodAdmission,
    r: Vetting,
)
    requires
        vetting_gives(args, still_selected, fresh, admission, r),
        r is Go,
    ensures
        still_selected <==> !args.removed_node_cleanup,
        args.require_node_runtime_version ==> nodes::runtime_version_of(fresh) is Some,
        args.require_node_machine_id ==> nodes::machine_id_of(fresh) is Some,
{
}

/// A node that nothing speaks against gets its Job.
pub proof fn law_a_fit_node_gets_its_job(
    args: Args,
    still_selected: bool,
    fresh: Node,
    admission: PodAdmission,
    r: Vetting,
)
    requires
        vetting_gives(args, still_selected, fresh, admission, r),
        still_selected != args.removed_node_cleanup,
        fresh.name is Some,
        args.ignore_node_taints || node_filter::admits(
            objects::taint_models(fresh.taints),
            admission,
        ),
        args.require_node_runtime_version ==> nodes::runtime_version_of(fresh) is Some,
        args.require_node_machine_id ==> nodes::machine_id_of(fresh) is Some,
    ensures
        r is Go,
{
}

/// A name that is taken is looked into; any other refusal fails the node, and a Job that was
/// created is there.
pub proof fn law_a_taken_name_is_looked_into(
    job: Seq<char>,
    answer: Result<(), ApiError>,
    r: Creation,
)
    requires
        creation_gives(job, answer, r),
    ensures
        r is Created <==> answer is Ok,
        r is Taken <==> answer is Err && answer->Err_0.code == Some(409u16),
        r is Refused <==> answer is Err && answer->Err_0.code != Some(409u16),
{
}

/// A run that leaves satisfied nodes alone dispatches to exactly the others, and one that does
/// not dispatches to all.
pub proof fn law_only_satisfied_nodes_are_left_alone(
    args: Args,
    ops: NodeOps,
    selected: Seq<Node>,
    node: Node,
)
    requires
        selected.contains(node),
    ensures
        !args.skip_satisfied_nodes ==> planned(args, ops, selected) == selected,
        args.skip_satisfied_nodes ==> (planned(args, ops, selected).contains(node)
            <==> !nodes::is_satisfied_node(
            ops.labelling,
            text::opt_text(ops.label_value),
            text::texts(ops.require_handlers@),
            node,
        )),
{
    broadcast use vstd::seq_lib::group_filter_ensures;

    let open = |n: Node|
        !nodes::is_satisfied_node(
            ops.labelling,
            text::opt_text(ops.label_value),
            text::texts(ops.require_handlers@),
            n,
        );
    let rest = selected.filter(open);
    let i = choose|i: int| 0 <= i < selected.len() && selected[i] == node;
    if open(node) {
        assert(open(selected[i]));
        assert(rest.contains(selected[i]));
    } else if rest.contains(node) {
        let k = choose|k: int| 0 <= k < rest.len() && rest[k] == node;
        assert(open(rest[k]));
    }
}

/// A node that was read again is the selected machine only where it has the UID that it was
/// selected as.
pub proof fn law_the_same_machine_has_the_same_uid(
    node: Seq<char>,
    expected_uid: Seq<char>,
    fresh: Node,
    r: Reread,
)
    requires
        reread_gives(node, expected_uid, Ok(fresh), r),
    ensures
        r is Same <==> fresh.uid is Some && fresh.uid->0@ == expected_uid,
        r matches Reread::Same(same) ==> same == fresh,
{
}

} // verus!
