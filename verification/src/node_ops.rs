//! The work around each per-node Job: what is done on its node before it starts and
//! after it succeeded, and in which order.

use crate::guarded;
use crate::guarded::Intent;
use crate::labels;
use crate::nodes;
use crate::nodes::{NodeLabelling, ResultKeys};
use crate::objects::{ApiError, Node};
use crate::text;
use vstd::prelude::*;
use vstd::string::*;

verus! {

/// One step of the work around a Job. Every step that fails ends the work, but for the
/// two that are advisory: the kubelet warning and lifting taints.
#[derive(Debug, Clone, Copy, PartialEq, Eq, Structural)]
pub enum NodeStep {
    /// Read the node and make sure that it is still the machine that was selected.
    EnsureUid,
    /// Take the node out of service.
    Demote,
    /// Mark the node as being worked on.
    Claim,
    /// Warn when the kubelet's `runtimeRequestTimeout` is below this many seconds.
    WarnOnLowKubeletTimeout { threshold_secs: u64 },
    /// Let go of the node.
    Release,
    /// Wait up to this many seconds for the node to report `Ready`.
    WaitTillReady { timeout_secs: u64 },
    /// Wait for the node to serve one of the required handlers.
    VerifyHandlers,
    /// Label the node, and see the labels hold.
    LabelUntilStable,
    /// Lift the start-up taints.
    LiftTaints,
}

/// What a run does on the nodes it dispatches to.
#[derive(Debug)]
pub struct NodeOps {
    /// `None` leaves every node label alone.
    pub labelling: Option<NodeLabelling>,
    pub label_value: Option<String>,
    /// Written alongside the label value, and taken away alongside it.
    pub extra_labels: Vec<(String, String)>,
    pub remove_label: bool,
    pub claim_pending: bool,
    /// Matchers, each `key` (any effect) or `key:effect`.
    pub remove_taints: Vec<String>,
    /// Seconds.
    pub wait_ready: Option<u64>,
    pub require_handlers: Vec<String>,
    /// Seconds.
    pub kubelet_timeout_warn: Option<u64>,
    /// Where this run's verdict on a node is written. Every run writes one.
    pub result_keys: ResultKeys,
}

/// The steps before a Job is created.
///
/// A node name can be reused by a replacement machine, so the steps that write to a
/// node are bracketed by the UID that was selected.
pub open spec fn steps_before(ops: NodeOps) -> Seq<NodeStep> {
    let demote = if ops.remove_label && ops.labelling is Some {
        seq![NodeStep::Demote]
    } else {
        Seq::empty()
    };
    let claim = if ops.claim_pending && ops.labelling is Some {
        seq![NodeStep::Claim]
    } else {
        Seq::empty()
    };
    let warn = match ops.kubelet_timeout_warn {
        Some(secs) => seq![NodeStep::WarnOnLowKubeletTimeout { threshold_secs: secs }],
        None => Seq::empty(),
    };
    seq![NodeStep::EnsureUid] + demote + claim + warn + seq![NodeStep::EnsureUid]
}

/// The steps after a Job succeeded.
///
/// The order is the point: a node has to be Ready before it is advertised as ready, and
/// its start-up taints may only be lifted once that advertisement is in place, since
/// they are what keeps workloads off it until then.
pub open spec fn steps_after(ops: NodeOps) -> Seq<NodeStep> {
    let release = if ops.labelling is Some {
        seq![NodeStep::Release]
    } else {
        Seq::empty()
    };
    let ready = match ops.wait_ready {
        Some(secs) => seq![NodeStep::WaitTillReady { timeout_secs: secs }],
        None => Seq::empty(),
    };
    let handlers = if ops.require_handlers@.len() > 0 {
        seq![NodeStep::VerifyHandlers]
    } else {
        Seq::empty()
    };
    let label = if ops.labelling is Some {
        seq![NodeStep::LabelUntilStable]
    } else {
        Seq::empty()
    };
    let taints = if ops.remove_taints@.len() > 0 {
        seq![NodeStep::LiftTaints]
    } else {
        Seq::empty()
    };
    let check = seq![NodeStep::EnsureUid];
    if ops.remove_label {
        check + release + check
    } else if ops.label_value is None {
        check
    } else {
        check + ready + check + handlers + check + label + check + taints
    }
}

/// The writes that record a result, or that clear the one an earlier run left.
pub open spec fn result_writes(
    keys: ResultKeys,
    result: Option<(Seq<char>, Option<Seq<char>>)>,
    finished_at: Seq<char>,
) -> Seq<(Seq<char>, Option<Seq<char>>)> {
    match result {
        Some((state, error)) => seq![
            (keys.state@, Some(state)),
            (keys.error@, error),
            (keys.finished_at@, Some(finished_at)),
        ],
        None => seq![
            (keys.state@, None),
            (keys.error@, None),
            (keys.finished_at@, None),
        ],
    }
}

/// What a step writes to the node.
pub open spec fn is_goal(ops: NodeOps, step: NodeStep, goal: Intent) -> bool {
    match step {
        NodeStep::Demote => goal matches Intent::Demote { labelling } && ops.labelling == Some(
            labelling,
        ),
        NodeStep::Claim => goal matches Intent::Claim { labelling } && ops.labelling == Some(
            labelling,
        ),
        NodeStep::Release => goal matches Intent::Release { labelling, extra } && ops.labelling
            == Some(labelling) && extra@ == ops.extra_labels@,
        NodeStep::LabelUntilStable => goal matches Intent::Finish { labelling, value, extra }
            && ops.labelling == Some(labelling) && ops.label_value == Some(value) && extra@
            == ops.extra_labels@,
        NodeStep::LiftTaints => goal matches Intent::LiftTaints { matchers } && matchers@
            == ops.remove_taints@,
        _ => false,
    }
}

/// Whether a step writes to the node at all.
pub open spec fn has_goal(ops: NodeOps, step: NodeStep) -> bool {
    match step {
        NodeStep::Demote => ops.labelling is Some,
        NodeStep::Claim => ops.labelling is Some,
        NodeStep::Release => ops.labelling is Some,
        NodeStep::LabelUntilStable => ops.labelling is Some && ops.label_value is Some,
        NodeStep::LiftTaints => true,
        _ => false,
    }
}

/// Whether two of them say the same.
pub open spec fn same_ops(one: NodeOps, other: NodeOps) -> bool {
    &&& one.labelling == other.labelling
    &&& one.label_value == other.label_value
    &&& one.extra_labels@ == other.extra_labels@
    &&& one.remove_label == other.remove_label
    &&& one.claim_pending == other.claim_pending
    &&& one.remove_taints@ == other.remove_taints@
    &&& one.wait_ready == other.wait_ready
    &&& one.require_handlers@ == other.require_handlers@
    &&& one.kubelet_timeout_warn == other.kubelet_timeout_warn
    &&& one.result_keys == other.result_keys
}

impl Clone for NodeOps {
    fn clone(&self) -> (r: Self)
        ensures
            same_ops(r, *self),
    {
        NodeOps {
            labelling: match &self.labelling {
                Some(labelling) => Some(labelling.clone()),
                None => None,
            },
            label_value: text::copy_opt(&self.label_value),
            extra_labels: labels::copy_pairs(&self.extra_labels),
            remove_label: self.remove_label,
            claim_pending: self.claim_pending,
            remove_taints: text::copy_list(&self.remove_taints),
            wait_ready: self.wait_ready,
            require_handlers: text::copy_list(&self.require_handlers),
            kubelet_timeout_warn: self.kubelet_timeout_warn,
            result_keys: self.result_keys.clone(),
        }
    }
}

impl NodeOps {
    /// Work that does nothing but record each node's result.
    pub fn new(tracking_prefix: &str) -> (r: Self)
        ensures
            r.labelling is None,
            r.label_value is None,
            r.extra_labels@.len() == 0,
            !r.remove_label,
            !r.claim_pending,
            r.remove_taints@.len() == 0,
            r.wait_ready is None,
            r.require_handlers@.len() == 0,
            r.kubelet_timeout_warn is None,
            r.result_keys.state@ == nodes::key_below(
                nodes::label_prefix(tracking_prefix@),
                "result"@,
            ),
            r.result_keys.error@ == nodes::key_below(
                nodes::label_prefix(tracking_prefix@),
                "error"@,
            ),
            r.result_keys.finished_at@ == nodes::key_below(
                nodes::label_prefix(tracking_prefix@),
                "finished-at"@,
            ),
    {
        NodeOps {
            labelling: None,
            label_value: None,
            extra_labels: Vec::new(),
            remove_label: false,
            claim_pending: false,
            remove_taints: Vec::new(),
            wait_ready: None,
            require_handlers: Vec::new(),
            kubelet_timeout_warn: None,
            result_keys: ResultKeys::with_prefix(tracking_prefix),
        }
    }

    /// Whether a finished run already shows on this node.
    pub fn is_satisfied(&self, node: &Node) -> (r: bool)
        ensures
            r == nodes::is_satisfied_node(
                self.labelling,
                text::opt_text(self.label_value),
                text::texts(self.require_handlers@),
                *node,
            ),
    {
        let labelling: Option<&NodeLabelling> = match &self.labelling {
            Some(labelling) => Some(labelling),
            None => None,
        };
        let finished: Option<&str> = match &self.label_value {
            Some(value) => Some(value.as_str()),
            None => None,
        };
        nodes::node_is_satisfied(labelling, finished, self.require_handlers.as_slice(), node)
    }

    /// The steps before a node's Job is created.
    pub fn before_dispatch(&self) -> (r: Vec<NodeStep>)
        ensures
            r@ == steps_before(*self),
    {
        let mut steps: Vec<NodeStep> = Vec::new();
        steps.push(NodeStep::EnsureUid);
        if self.remove_label && self.labelling.is_some() {
            steps.push(NodeStep::Demote);
        }
        if self.claim_pending && self.labelling.is_some() {
            steps.push(NodeStep::Claim);
        }
        if let Some(secs) = self.kubelet_timeout_warn {
            steps.push(NodeStep::WarnOnLowKubeletTimeout { threshold_secs: secs });
        }
        steps.push(NodeStep::EnsureUid);
        assert(steps@ =~= steps_before(*self));
        steps
    }

    /// The steps after a node's Job succeeded.
    pub fn after_success(&self) -> (r: Vec<NodeStep>)
        ensures
            r@ == steps_after(*self),
    {
        let mut steps: Vec<NodeStep> = Vec::new();
        steps.push(NodeStep::EnsureUid);
        if self.remove_label {
            if self.labelling.is_some() {
                steps.push(NodeStep::Release);
            }
            steps.push(NodeStep::EnsureUid);
        } else if self.label_value.is_some() {
            if let Some(secs) = self.wait_ready {
                steps.push(NodeStep::WaitTillReady { timeout_secs: secs });
            }
            steps.push(NodeStep::EnsureUid);
            if self.require_handlers.len() > 0 {
                steps.push(NodeStep::VerifyHandlers);
            }
            steps.push(NodeStep::EnsureUid);
            if self.labelling.is_some() {
                steps.push(NodeStep::LabelUntilStable);
            }
            steps.push(NodeStep::EnsureUid);
            if self.remove_taints.len() > 0 {
                steps.push(NodeStep::LiftTaints);
            }
        }
        assert(steps@ =~= steps_after(*self));
        steps
    }

    /// What a step writes to the node.
    pub fn goal_of(&self, step: NodeStep) -> (r: Option<Intent>)
        ensures
            match r {
                Some(goal) => is_goal(*self, step, goal),
                None => !has_goal(*self, step),
            },
    {
        match (step, &self.labelling) {
            (NodeStep::Demote, Some(labelling)) => Some(
                Intent::Demote { labelling: labelling.clone() },
            ),
            (NodeStep::Claim, Some(labelling)) => Some(
                Intent::Claim { labelling: labelling.clone() },
            ),
            (NodeStep::Release, Some(labelling)) => Some(
                Intent::Release {
                    labelling: labelling.clone(),
                    extra: labels::copy_pairs(&self.extra_labels),
                },
            ),
            (NodeStep::LabelUntilStable, Some(labelling)) => match &self.label_value {
                Some(value) => Some(
                    Intent::Finish {
                        labelling: labelling.clone(),
                        value: value.clone(),
                        extra: labels::copy_pairs(&self.extra_labels),
                    },
                ),
                None => None,
            },
            (NodeStep::LiftTaints, _) => Some(
                Intent::LiftTaints { matchers: text::copy_list(&self.remove_taints) },
            ),
            _ => None,
        }
    }

    /// What to record of a node that failed.
    ///
    /// A node name can by now belong to a different machine, and without the UID there
    /// is nothing to bracket the write with, so nothing is recorded then.
    pub fn record_failure(&self, expected_uid: Option<&str>, reason: &str, finished_at: &str) -> (r:
        Option<Intent>)
        ensures
            match r {
                Some(goal) => expected_uid is Some && (goal matches Intent::Record { keys, updates }
                    && keys == self.result_keys && labels::writes(updates@)
                    == failure_writes(*self, reason@, finished_at@)),
                None => expected_uid is None,
            },
    {
        match expected_uid {
            Some(_) => {
                let updates = self.result_updates(
                    Some(nodes::STATE_FAILED),
                    Some(reason),
                    finished_at,
                );
                Some(Intent::Record { keys: self.result_keys.clone(), updates })
            },
            None => None,
        }
    }

    /// What to record of a node that the run finished on. A cleanup has taken away what
    /// a result would describe, so it clears the result instead.
    pub fn record_success(&self, expected_uid: Option<&str>, finished_at: &str) -> (r: Option<
        Intent,
    >)
        ensures
            match r {
                Some(goal) => expected_uid is Some && (goal matches Intent::Record { keys, updates }
                    && keys == self.result_keys && labels::writes(updates@)
                    == success_writes(*self, finished_at@)),
                None => expected_uid is None,
            },
    {
        match expected_uid {
            Some(_) => {
                let state: Option<&str> = if self.remove_label {
                    None
                } else {
                    Some(nodes::STATE_SUCCEEDED)
                };
                let updates = self.result_updates(state, None, finished_at);
                Some(Intent::Record { keys: self.result_keys.clone(), updates })
            },
            None => None,
        }
    }

    /// The writes that record a result; without a state they clear it.
    fn result_updates(&self, state: Option<&str>, error: Option<&str>, finished_at: &str) -> (r:
        Vec<(String, Option<String>)>)
        ensures
            labels::writes(r@) == result_writes(
                self.result_keys,
                match state {
                    Some(state) => Some((state@, text::opt_str(error))),
                    None => None,
                },
                finished_at@,
            ),
    {
        let mut updates: Vec<(String, Option<String>)> = Vec::new();
        let (state, error, finished_at): (Option<String>, Option<String>, Option<String>) =
            match state {
            Some(state) => (
                Some(state.to_string()),
                match error {
                    Some(error) => Some(error.to_string()),
                    None => None,
                },
                Some(finished_at.to_string()),
            ),
            None => (None, None, None),
        };
        updates.push((self.result_keys.state.clone(), state));
        updates.push((self.result_keys.error.clone(), error));
        updates.push((self.result_keys.finished_at.clone(), finished_at));
        assert(labels::writes(updates@) =~= result_writes(
            self.result_keys,
            match state {
                Some(state) => Some((state@, text::opt_text(error))),
                None => None,
            },
            match finished_at {
                Some(at) => at@,
                None => Seq::empty(),
            },
        ));
        updates
    }
}

/// The work for the pass that cleans the nodes this instance owns but no longer selects:
/// it lets go of them, and neither claims nor advertises them.
pub fn cleanup_ops(ops: NodeOps) -> (r: NodeOps)
    ensures
        r.labelling == ops.labelling,
        r.label_value is None,
        r.extra_labels@ == ops.extra_labels@,
        r.remove_label,
        !r.claim_pending,
        r.remove_taints@.len() == 0,
        r.wait_ready is None,
        r.require_handlers@.len() == 0,
        r.kubelet_timeout_warn is None,
        r.result_keys == ops.result_keys,
{
    let mut ops: NodeOps = ops;
    ops.label_value = None;
    ops.remove_label = true;
    ops.claim_pending = false;
    ops.remove_taints = Vec::new();
    ops.wait_ready = None;
    ops.require_handlers = Vec::new();
    ops.kubelet_timeout_warn = None;
    ops
}

/// The cleanup pass takes a node out of service, then lets go of it, and does nothing
/// else to it.
pub proof fn law_the_cleanup_pass_advertises_nothing(ops: NodeOps)
    requires
        ops.remove_label,
        !ops.claim_pending,
        ops.kubelet_timeout_warn is None,
        ops.labelling is Some,
    ensures
        steps_before(ops) == seq![NodeStep::EnsureUid, NodeStep::Demote, NodeStep::EnsureUid],
        steps_after(ops) == seq![NodeStep::EnsureUid, NodeStep::Release, NodeStep::EnsureUid],
{
    assert(steps_before(ops) =~= seq![
        NodeStep::EnsureUid,
        NodeStep::Demote,
        NodeStep::EnsureUid,
    ]);
    assert(steps_after(ops) =~= seq![
        NodeStep::EnsureUid,
        NodeStep::Release,
        NodeStep::EnsureUid,
    ]);
}

/// What is said when a name belongs to another machine by now.
pub open spec fn identity_text(
    node: Seq<char>,
    expected_uid: Seq<char>,
    found: Option<Seq<char>>,
) -> Seq<char> {
    "node "@ + node + " changed identity: expected UID "@ + expected_uid + ", found "@
        + text::debug_option(found)
}

/// A node name can be reused by a replacement machine, so every step that writes to a
/// node is bracketed by the UID that was selected.
pub fn ensure_uid(node: &str, expected_uid: &str, fetched: Result<Node, ApiError>) -> (r: Result<
    (),
    String,
>)
    ensures
        match fetched {
            Err(error) => r matches Err(why) && why@ == guarded::unread_text(
                node@,
                error.message@,
            ),
            Ok(current) => if text::opt_text(current.uid) == Some(expected_uid@) {
                r is Ok
            } else {
                r matches Err(why) && why@ == identity_text(
                    node@,
                    expected_uid@,
                    text::opt_text(current.uid),
                )
            },
        },
{
    let current: Node = match fetched {
        Ok(current) => current,
        Err(error) => {
            return Err(guarded::say_unread(node, error.message.as_str()));
        },
    };
    let same: bool = match &current.uid {
        Some(uid) => text::same(uid.as_str(), expected_uid),
        None => false,
    };
    if same {
        Ok(())
    } else {
        Err(
            "node ".to_string().concat(node).concat(" changed identity: expected UID ").concat(
                expected_uid,
            ).concat(", found ").concat(text::quoted_option(&current.uid).as_str()),
        )
    }
}

/// Whether a step writes labels to the node, failing the work when it cannot.
pub open spec fn writes_labels(step: NodeStep) -> bool {
    step is Demote || step is Claim || step is Release || step is LabelUntilStable
}

/// Before the Job, every step that writes labels stands between two checks of the
/// node's identity.
pub proof fn law_writes_before_the_job_are_bracketed(ops: NodeOps, i: int)
    requires
        0 <= i < steps_before(ops).len(),
        writes_labels(steps_before(ops)[i]),
    ensures
        0 < i < steps_before(ops).len() - 1,
        steps_before(ops).first() == NodeStep::EnsureUid,
        steps_before(ops).last() == NodeStep::EnsureUid,
{
}

/// After the Job, every step that writes to the node comes right after a check of the
/// node's identity, and one that writes labels also right before another.
pub proof fn law_writes_after_the_job_are_bracketed(ops: NodeOps, i: int)
    requires
        0 <= i < steps_after(ops).len(),
        writes_labels(steps_after(ops)[i]) || steps_after(ops)[i] == NodeStep::LiftTaints,
    ensures
        0 < i,
        steps_after(ops)[i - 1] == NodeStep::EnsureUid,
        writes_labels(steps_after(ops)[i]) ==> i + 1 < steps_after(ops).len() && steps_after(
            ops,
        )[i + 1] == NodeStep::EnsureUid,
{
}

/// A node is labelled only once it reported Ready and its handlers were seen, and its
/// taints are lifted only once it is labelled.
pub proof fn law_a_node_is_ready_before_it_is_advertised(ops: NodeOps, i: int, j: int)
    requires
        0 <= i < steps_after(ops).len(),
        0 <= j < steps_after(ops).len(),
        steps_after(ops)[j] == NodeStep::LabelUntilStable,
    ensures
        steps_after(ops)[i] is WaitTillReady ==> i < j,
        steps_after(ops)[i] == NodeStep::VerifyHandlers ==> i < j,
        steps_after(ops)[i] == NodeStep::LiftTaints ==> j < i,
{
}

/// Taints are lifted only by work that labels the node, where there is a label to
/// write.
pub proof fn law_taints_are_lifted_only_from_labelled_nodes(ops: NodeOps)
    requires
        ops.labelling is Some,
    ensures
        steps_after(ops).contains(NodeStep::LiftTaints) ==> steps_after(ops).contains(
            NodeStep::LabelUntilStable,
        ),
{
    let steps = steps_after(ops);
    if steps.contains(NodeStep::LiftTaints) {
        assert(steps[steps.len() - 3] == NodeStep::LabelUntilStable);
    }
}

/// Nothing is advertised, let go of or opened to workloads before a node's Job ran.
pub proof fn law_nothing_is_advertised_before_the_job(ops: NodeOps, i: int)
    requires
        0 <= i < steps_before(ops).len(),
    ensures
        steps_before(ops)[i] != NodeStep::LabelUntilStable,
        steps_before(ops)[i] != NodeStep::Release,
        steps_before(ops)[i] != NodeStep::LiftTaints,
{
}

/// Before the Job, a node is taken out of service, claimed and probed exactly where the flags
/// ask for it.
pub proof fn law_work_before_is_what_the_flags_ask(ops: NodeOps, secs: u64)
    ensures
        steps_before(ops).contains(NodeStep::Demote) <==> ops.remove_label && ops.labelling is Some,
        steps_before(ops).contains(NodeStep::Claim) <==> ops.claim_pending && ops.labelling is Some,
        steps_before(ops).contains(NodeStep::WarnOnLowKubeletTimeout { threshold_secs: secs })
            <==> ops.kubelet_timeout_warn == Some(secs),
{
    let steps = steps_before(ops);
    let out = ops.remove_label && ops.labelling is Some;
    let mark = ops.claim_pending && ops.labelling is Some;
    if out {
        assert(steps[1] == NodeStep::Demote);
    }
    if mark {
        assert(steps[if out {
            2int
        } else {
            1int
        }] == NodeStep::Claim);
    }
    if ops.kubelet_timeout_warn == Some(secs) {
        assert(steps[steps.len() - 2] == NodeStep::WarnOnLowKubeletTimeout {
            threshold_secs: secs,
        });
    }
}

/// After the Job, a run that advertises its nodes waits for readiness, verifies handlers,
/// labels the node and lifts taints exactly where the flags ask for it.
pub proof fn law_work_after_is_what_the_flags_ask(ops: NodeOps, secs: u64)
    requires
        !ops.remove_label,
        ops.label_value is Some,
    ensures
        steps_after(ops).contains(NodeStep::WaitTillReady { timeout_secs: secs }) <==> ops.wait_ready
            == Some(secs),
        steps_after(ops).contains(NodeStep::VerifyHandlers) <==> ops.require_handlers@.len() > 0,
        steps_after(ops).contains(NodeStep::LabelUntilStable) <==> ops.labelling is Some,
        steps_after(ops).contains(NodeStep::LiftTaints) <==> ops.remove_taints@.len() > 0,
        !steps_after(ops).contains(NodeStep::Release),
{
    let steps = steps_after(ops);
    let ready = if ops.wait_ready is Some {
        1int
    } else {
        0int
    };
    let handlers = if ops.require_handlers@.len() > 0 {
        1int
    } else {
        0int
    };
    if ops.wait_ready == Some(secs) {
        assert(steps[1] == NodeStep::WaitTillReady { timeout_secs: secs });
    }
    if ops.require_handlers@.len() > 0 {
        assert(steps[2 + ready] == NodeStep::VerifyHandlers);
    }
    if ops.labelling is Some {
        assert(steps[3 + ready + handlers] == NodeStep::LabelUntilStable);
    }
    if ops.remove_taints@.len() > 0 {
        assert(steps[steps.len() - 1] == NodeStep::LiftTaints);
    }
}

/// After the Job, a run that lets go of its nodes releases them where it labels any, and
/// neither labels them nor lifts their taints; one that does neither only makes sure who
/// the node is.
pub proof fn law_letting_go_advertises_nothing(ops: NodeOps)
    requires
        ops.remove_label || ops.label_value is None,
    ensures
        steps_after(ops).contains(NodeStep::Release) <==> ops.remove_label && ops.labelling is Some,
        !steps_after(ops).contains(NodeStep::LabelUntilStable),
        !steps_after(ops).contains(NodeStep::LiftTaints),
        steps_after(ops).first() == NodeStep::EnsureUid,
        steps_after(ops).last() == NodeStep::EnsureUid,
{
    let steps = steps_after(ops);
    if ops.remove_label && ops.labelling is Some {
        assert(steps[1] == NodeStep::Release);
    }
}

/// A result says what became of the node and when, and why only where it failed: the reason
/// of an earlier failure goes with a success, and clearing a result takes all of it away.
pub proof fn law_results_say_what_became_of_the_node(
    keys: ResultKeys,
    state: Seq<char>,
    error: Option<Seq<char>>,
    finished_at: Seq<char>,
)
    ensures
        result_writes(keys, Some((state, error)), finished_at).contains((keys.state@, Some(state))),
        result_writes(keys, Some((state, error)), finished_at).contains((keys.error@, error)),
        result_writes(keys, Some((state, error)), finished_at).contains(
            (keys.finished_at@, Some(finished_at)),
        ),
        result_writes(keys, None, finished_at).contains((keys.state@, None)),
        result_writes(keys, None, finished_at).contains((keys.error@, None)),
        result_writes(keys, None, finished_at).contains((keys.finished_at@, None)),
        result_writes(keys, Some((state, error)), finished_at).len() == 3,
        result_writes(keys, None, finished_at).len() == 3,
{
    let some = result_writes(keys, Some((state, error)), finished_at);
    let none = result_writes(keys, None, finished_at);
    assert(some[0] == (keys.state@, Some(state)));
    assert(some[1] == (keys.error@, error));
    assert(some[2] == (keys.finished_at@, Some(finished_at)));
    assert(none[0] == (keys.state@, None::<Seq<char>>));
    assert(none[1] == (keys.error@, None::<Seq<char>>));
    assert(none[2] == (keys.finished_at@, None::<Seq<char>>));
}

/// What is recorded of a node that the run finished on.
pub open spec fn success_writes(ops: NodeOps, finished_at: Seq<char>) -> Seq<
    (Seq<char>, Option<Seq<char>>),
> {
    result_writes(
        ops.result_keys,
        if ops.remove_label {
            None
        } else {
            Some((nodes::STATE_SUCCEEDED@, None))
        },
        finished_at,
    )
}

/// What is recorded of a node that failed.
pub open spec fn failure_writes(ops: NodeOps, reason: Seq<char>, finished_at: Seq<char>) -> Seq<
    (Seq<char>, Option<Seq<char>>),
> {
    result_writes(ops.result_keys, Some((nodes::STATE_FAILED@, Some(reason))), finished_at)
}

/// A node that the run finished on is recorded as `succeeded`, without the reason of an
/// earlier failure; one that was cleaned keeps no result; and one that failed is recorded as
/// `failed`, with its reason, whatever the run does.
pub proof fn law_nodes_are_recorded_as_they_ended(
    ops: NodeOps,
    reason: Seq<char>,
    finished_at: Seq<char>,
)
    ensures
        ops.remove_label ==> forall|i: int|
            0 <= i < success_writes(ops, finished_at).len() ==> (#[trigger] success_writes(
                ops,
                finished_at,
            )[i]).1 is None,
        !ops.remove_label ==> success_writes(ops, finished_at).contains(
            (ops.result_keys.state@, Some("succeeded"@)),
        ) && success_writes(ops, finished_at).contains((ops.result_keys.error@, None))
            && success_writes(ops, finished_at).contains(
            (ops.result_keys.finished_at@, Some(finished_at)),
        ),
        ops.remove_label ==> success_writes(ops, finished_at).contains(
            (ops.result_keys.state@, None),
        ),
        failure_writes(ops, reason, finished_at).contains(
            (ops.result_keys.state@, Some("failed"@)),
        ),
        failure_writes(ops, reason, finished_at).contains((ops.result_keys.error@, Some(reason))),
        failure_writes(ops, reason, finished_at).contains(
            (ops.result_keys.finished_at@, Some(finished_at)),
        ),
{
    law_results_say_what_became_of_the_node(
        ops.result_keys,
        nodes::STATE_SUCCEEDED@,
        None,
        finished_at,
    );
    law_results_say_what_became_of_the_node(
        ops.result_keys,
        nodes::STATE_FAILED@,
        Some(reason),
        finished_at,
    );
}

} // verus!
