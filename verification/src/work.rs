//! The work around a Job, step by step: what to ask the apiserver next, and what to make of
//! its answers, until every step is done or one has failed.

use crate::guarded;
use crate::guarded::{GuardedWrite, Intent, WriteStep};
use crate::labels;
use crate::node_ops;
use crate::node_ops::{NodeOps, NodeStep};
use crate::nodes::NodeLabelling;
use crate::objects::{ApiError, Node};
use crate::settle;
use crate::text;
use crate::waits;
use crate::waits::{LabelWatch, WaitStep, WatchStep};
use crate::writes;
use vstd::prelude::*;
use vstd::string::*;

verus! {

/// Which half of the work it is.
#[derive(Debug, Clone, Copy, PartialEq, Eq, Structural)]
pub enum Phase {
    /// Before the Job is created.
    Before,
    /// After it succeeded.
    After,
}

/// What the apiserver is to be asked next.
#[derive(Debug)]
pub enum Ask {
    /// Read the node.
    Read,
    /// Read the node after so many seconds.
    ReadAfter { secs: u64 },
    /// Send the patch.
    Patch(json_patch::Patch),
    /// Read the kubelet's `/configz`, and warn when its timeout is below so many seconds.
    Probe { threshold_secs: u64 },
    /// Nothing more: every step is done.
    Done,
    /// Nothing more: a step failed, and why.
    Fail(String),
    /// Nothing: this was not asked for.
    Unexpected,
}

/// How far the current step has come.
#[derive(Debug)]
pub enum Stage {
    /// The node is read to check its identity.
    Checking,
    /// A write is going on.
    Writing(GuardedWrite),
    /// Labels are being written, or watched.
    Labelling { write: GuardedWrite, watch: LabelWatch, applying: bool },
    /// Something is waited for since this moment.
    Waiting { since: u64 },
    /// The kubelet is read.
    Probing,
    /// Every step is done, or one has failed.
    Over,
}

/// The steps of a half of the work.
pub open spec fn plan_for(ops: NodeOps, phase: Phase) -> Seq<NodeStep> {
    match phase {
        Phase::Before => node_ops::steps_before(ops),
        Phase::After => node_ops::steps_after(ops),
    }
}

/// Whether a write is the one that a step of the work makes on this node.
pub open spec fn is_write(
    write: GuardedWrite,
    ops: NodeOps,
    step: NodeStep,
    node: Seq<char>,
    uid: Seq<char>,
) -> bool {
    &&& write.node_text() == node
    &&& write.uid_text() == uid
    &&& node_ops::is_goal(ops, step, write.goal())
}

/// The labels that the work leaves on a node it finished on.
pub open spec fn wanted_labels(ops: NodeOps) -> Seq<(Seq<char>, Option<Seq<char>>)> {
    match (ops.labelling, ops.label_value) {
        (Some(labelling), Some(value)) => writes::finished_labels(
            labelling,
            value@,
            labels::pairs(ops.extra_labels@),
        ),
        _ => Seq::empty(),
    }
}

/// Whether a watch is over the labels that the work leaves on this node.
pub open spec fn is_watch(watch: LabelWatch, ops: NodeOps, node: Seq<char>, uid: Seq<char>) -> bool {
    &&& watch.node_text() == node
    &&& watch.uid_text() == uid
    &&& watch.wanted() == wanted_labels(ops)
}

/// Whether a stage belongs to a step.
pub open spec fn fits(
    stage: Stage,
    ops: NodeOps,
    step: NodeStep,
    node: Seq<char>,
    uid: Seq<char>,
) -> bool {
    match step {
        NodeStep::EnsureUid => stage is Checking,
        NodeStep::WarnOnLowKubeletTimeout { .. } => stage is Probing,
        NodeStep::WaitTillReady { .. } => stage is Waiting,
        NodeStep::VerifyHandlers => stage is Waiting,
        NodeStep::LabelUntilStable => stage matches Stage::Labelling { write, watch, .. }
            && is_write(write, ops, step, node, uid) && is_watch(watch, ops, node, uid),
        _ => stage matches Stage::Writing(write) && is_write(write, ops, step, node, uid),
    }
}

/// The work on a node.
#[derive(Debug)]
pub struct NodeWork {
    node: String,
    uid: String,
    ops: NodeOps,
    phase: Phase,
    plan: Vec<NodeStep>,
    at: usize,
    stage: Stage,
    lost: Option<String>,
}

/// A step of a plan writes what the work can write.
proof fn lemma_planned_steps_have_goals(ops: NodeOps, phase: Phase, at: int)
    requires
        0 <= at < plan_for(ops, phase).len(),
    ensures
        match plan_for(ops, phase)[at] {
            NodeStep::EnsureUid => true,
            NodeStep::WarnOnLowKubeletTimeout { .. } => true,
            NodeStep::WaitTillReady { .. } => true,
            NodeStep::VerifyHandlers => true,
            step => node_ops::has_goal(ops, step),
        },
{
}

impl NodeWork {
    /// The node's name.
    pub closed spec fn node_text(self) -> Seq<char> {
        self.node@
    }

    /// The UID that the node was selected as.
    pub closed spec fn uid_text(self) -> Seq<char> {
        self.uid@
    }

    /// What is to be done on nodes.
    pub closed spec fn job_ops(self) -> NodeOps {
        self.ops
    }

    /// Which half of the work it is.
    pub closed spec fn half(self) -> Phase {
        self.phase
    }

    /// How many steps are done.
    pub closed spec fn done(self) -> int {
        self.at as int
    }

    /// How far the current step has come.
    pub closed spec fn current(self) -> Stage {
        self.stage
    }

    /// Why the taints could not be lifted.
    pub closed spec fn lost_text(self) -> Option<Seq<char>> {
        text::opt_text(self.lost)
    }

    /// The steps.
    pub open spec fn steps(self) -> Seq<NodeStep> {
        plan_for(self.job_ops(), self.half())
    }

    /// The plan is the one for this half of the work, and the stage is one of the current
    /// step.
    pub closed spec fn wf(self) -> bool {
        &&& self.plan@ == self.steps()
        &&& 0 <= self.at <= self.plan@.len()
        &&& self.stage is Over || (self.at < self.plan@.len() && fits(
            self.stage,
            self.ops,
            self.plan@[self.at as int],
            self.node@,
            self.uid@,
        ))
    }

    /// The same work, however far it has come.
    pub open spec fn same_work(self, other: NodeWork) -> bool {
        &&& self.node_text() == other.node_text()
        &&& self.uid_text() == other.uid_text()
        &&& self.job_ops() == other.job_ops()
        &&& self.half() == other.half()
    }

    /// The step after the last one that is done starts now: what is asked for it, and the
    /// stage it is in.
    pub open spec fn starts(self, now: u64, ask: Ask) -> bool {
        if self.done() >= self.steps().len() {
            ask is Done && self.current() is Over
        } else {
            let step = self.steps()[self.done()];
            &&& fits(self.current(), self.job_ops(), step, self.node_text(), self.uid_text())
            &&& match step {
                NodeStep::WarnOnLowKubeletTimeout { threshold_secs } => ask == (Ask::Probe {
                    threshold_secs,
                }),
                _ => ask is Read,
            }
            &&& match self.current() {
                Stage::Writing(write) => write.attempt_number() == 1,
                Stage::Labelling { write, watch, applying } => {
                    &&& applying
                    &&& write.attempt_number() == 1
                    &&& watch.state() == waits::watched_all(Seq::empty())
                },
                Stage::Waiting { since } => since == now,
                _ => true,
            }
        }
    }

    /// The current step is done, and the next one starts.
    pub open spec fn moves_on(self, after: NodeWork, now: u64, ask: Ask) -> bool {
        after.done() == self.done() + 1 && after.starts(now, ask) && after.lost_text()
            == self.lost_text()
    }

    /// The current step failed, and with it the work.
    pub open spec fn gives_up(self, after: NodeWork, why: Seq<char>, ask: Ask) -> bool {
        &&& ask matches Ask::Fail(said) && said@ == why
        &&& after.done() == self.done()
        &&& after.lost_text() == self.lost_text()
        &&& after.current() is Over
    }

    /// The current step goes on, in this stage.
    pub open spec fn goes_on(self, after: NodeWork, stage: Stage) -> bool {
        &&& after.current() == stage
        &&& after.done() == self.done()
        &&& after.lost_text() == self.lost_text()
    }

    /// What a step of a write leads to. Lifting taints is best-effort: a taint left in
    /// place only keeps workloads away, which is the safe direction.
    pub open spec fn write_leads(
        self,
        step: WriteStep,
        write: GuardedWrite,
        after: NodeWork,
        now: u64,
        ask: Ask,
    ) -> bool {
        match step {
            WriteStep::Read => ask is Read && self.goes_on(after, Stage::Writing(write)),
            WriteStep::Patch(patch) => ask == Ask::Patch(patch) && self.goes_on(
                after,
                Stage::Writing(write),
            ),
            WriteStep::Done => self.moves_on(after, now, ask),
            WriteStep::Fail(why) => if self.steps()[self.done()] == NodeStep::LiftTaints {
                after.done() == self.done() + 1 && after.starts(now, ask) && after.lost_text()
                    == Some(why@)
            } else {
                self.gives_up(after, why@, ask)
            },
        }
    }

    /// What a step of writing the labels leads to: once they are written, they are watched.
    pub open spec fn apply_leads(
        self,
        step: WriteStep,
        write: GuardedWrite,
        watch: LabelWatch,
        after: NodeWork,
        ask: Ask,
    ) -> bool {
        match step {
            WriteStep::Read => ask is Read && self.goes_on(
                after,
                Stage::Labelling { write, watch, applying: true },
            ),
            WriteStep::Patch(patch) => ask == Ask::Patch(patch) && self.goes_on(
                after,
                Stage::Labelling { write, watch, applying: true },
            ),
            WriteStep::Done => ask == (Ask::ReadAfter { secs: waits::LABEL_CHECK_INTERVAL_SECS })
                && self.goes_on(after, Stage::Labelling { write, watch, applying: false }),
            WriteStep::Fail(why) => self.gives_up(after, why@, ask),
        }
    }

    /// What a look at the labels leads to: they are watched on, written again, or holding.
    pub open spec fn watch_leads(
        self,
        step: WatchStep,
        write: GuardedWrite,
        watch: LabelWatch,
        after: NodeWork,
        now: u64,
        ask: Ask,
    ) -> bool {
        match step {
            WatchStep::Check => ask == (Ask::ReadAfter { secs: waits::LABEL_CHECK_INTERVAL_SECS })
                && self.goes_on(after, Stage::Labelling { write, watch, applying: false }),
            WatchStep::Apply => {
                &&& ask is Read
                &&& after.done() == self.done()
                &&& after.lost_text() == self.lost_text()
                &&& after.current() matches Stage::Labelling {
                    write: again,
                    watch: kept,
                    applying,
                } && applying && kept == watch && again.attempt_number() == 1 && is_write(
                    again,
                    self.job_ops(),
                    NodeStep::LabelUntilStable,
                    self.node_text(),
                    self.uid_text(),
                )
            },
            WatchStep::Held => self.moves_on(after, now, ask),
            WatchStep::Fail(why) => self.gives_up(after, why@, ask),
        }
    }

    /// What waiting for something leads to.
    pub open spec fn wait_leads(
        self,
        step: WaitStep,
        after: NodeWork,
        now: u64,
        ask: Ask,
    ) -> bool {
        match step {
            WaitStep::Done => self.moves_on(after, now, ask),
            WaitStep::Again => ask == (Ask::ReadAfter { secs: waits::NODE_POLL_SECS })
                && self.goes_on(after, self.current()),
            WaitStep::Fail(why) => self.gives_up(after, why@, ask),
        }
    }

    /// Nothing was asked for, so nothing happens.
    pub open spec fn ignores(self, after: NodeWork, ask: Ask) -> bool {
        ask is Unexpected && self.goes_on(after, self.current())
    }

    /// What reading the node leads to.
    pub open spec fn read_leads(
        self,
        fetched: Result<Node, ApiError>,
        now: u64,
        after: NodeWork,
        ask: Ask,
    ) -> bool {
        let step = self.steps()[self.done()];
        match self.current() {
            Stage::Checking => match fetched {
                Err(error) => self.gives_up(
                    after,
                    guarded::unread_text(self.node_text(), error.message@),
                    ask,
                ),
                Ok(found) => if text::opt_text(found.uid) == Some(self.uid_text()) {
                    self.moves_on(after, now, ask)
                } else {
                    self.gives_up(
                        after,
                        node_ops::identity_text(
                            self.node_text(),
                            self.uid_text(),
                            text::opt_text(found.uid),
                        ),
                        ask,
                    )
                },
            },
            Stage::Writing(write) => exists|s: WriteStep, w: GuardedWrite|
                #[trigger] write.read_gives(fetched, w, s) && self.write_leads(
                    s,
                    w,
                    after,
                    now,
                    ask,
                ),
            Stage::Labelling { write, watch, applying } => if applying {
                exists|s: WriteStep, w: GuardedWrite|
                    #[trigger] write.read_gives(fetched, w, s) && self.apply_leads(
                        s,
                        w,
                        watch,
                        after,
                        ask,
                    )
            } else {
                exists|s: WatchStep, w: LabelWatch|
                    #[trigger] watch.look_gives(fetched, w, s) && self.watch_leads(
                        s,
                        write,
                        w,
                        after,
                        now,
                        ask,
                    )
            },
            Stage::Waiting { since } => exists|s: WaitStep|
                {
                    &&& match step {
                        NodeStep::WaitTillReady { timeout_secs } => waits::readiness_gives(
                            self.node_text(),
                            timeout_secs,
                            settle::secs_between(since as int, now as int) as u64,
                            fetched,
                            s,
                        ),
                        _ => waits::handlers_give(
                            self.node_text(),
                            text::texts(self.job_ops().require_handlers@),
                            settle::secs_between(since as int, now as int) as u64,
                            fetched,
                            s,
                        ),
                    }
                    &&& #[trigger] self.wait_leads(s, after, now, ask)
                },
            _ => self.ignores(after, ask),
        }
    }

    /// What the answer to a patch leads to.
    pub open spec fn patch_leads(
        self,
        answer: Result<(), ApiError>,
        now: u64,
        after: NodeWork,
        ask: Ask,
    ) -> bool {
        match self.current() {
            Stage::Writing(write) => exists|s: WriteStep, w: GuardedWrite|
                #[trigger] write.patched_gives(answer, w, s) && self.write_leads(
                    s,
                    w,
                    after,
                    now,
                    ask,
                ),
            Stage::Labelling { write, watch, applying: true } => exists|
                s: WriteStep,
                w: GuardedWrite,
            |
                #[trigger] write.patched_gives(answer, w, s) && self.apply_leads(
                    s,
                    w,
                    watch,
                    after,
                    ask,
                ),
            _ => self.ignores(after, ask),
        }
    }

    /// What the kubelet's answer leads to, whatever it is: the warning is advisory.
    pub open spec fn probe_leads(self, now: u64, after: NodeWork, ask: Ask) -> bool {
        if self.current() is Probing {
            self.moves_on(after, now, ask)
        } else {
            self.ignores(after, ask)
        }
    }

    /// Work that has not started.
    pub fn new(ops: NodeOps, node: &str, expected_uid: &str, phase: Phase) -> (r: Self)
        ensures
            r.wf(),
            r.node_text() == node@,
            r.uid_text() == expected_uid@,
            r.job_ops() == ops,
            r.half() == phase,
            r.done() == 0,
            r.current() is Over,
            r.lost_text() is None,
    {
        let plan: Vec<NodeStep> = match phase {
            Phase::Before => ops.before_dispatch(),
            Phase::After => ops.after_success(),
        };
        NodeWork {
            node: node.to_string(),
            uid: expected_uid.to_string(),
            ops,
            phase,
            plan,
            at: 0,
            stage: Stage::Over,
            lost: None,
        }
    }

    /// Why the taints could not be lifted, where that was tried and failed.
    pub fn lost(&self) -> (r: &Option<String>)
        ensures
            text::opt_text(*r) == self.lost_text(),
    {
        &self.lost
    }

    /// Starts the first step.
    pub fn begin(&mut self, now: u64) -> (r: Ask)
        requires
            old(self).wf(),
        ensures
            final(self).wf(),
            final(self).same_work(*old(self)),
            final(self).done() == 0,
            final(self).lost_text() is None,
            final(self).starts(now, r),
    {
        self.at = 0;
        self.lost = None;
        self.enter(now)
    }

    /// Starts the step after the last one that is done.
    fn enter(&mut self, now: u64) -> (r: Ask)
        requires
            old(self).plan@ == old(self).steps(),
            old(self).at <= old(self).plan@.len(),
        ensures
            final(self).wf(),
            final(self).same_work(*old(self)),
            final(self).done() == old(self).done(),
            final(self).lost_text() == old(self).lost_text(),
            final(self).starts(now, r),
    {
        if self.at >= self.plan.len() {
            self.stage = Stage::Over;
            return Ask::Done;
        }
        let step: NodeStep = self.plan[self.at];
        proof {
            lemma_planned_steps_have_goals(self.ops, self.phase, self.at as int);
        }
        match step {
            NodeStep::EnsureUid => {
                self.stage = Stage::Checking;
                Ask::Read
            },
            NodeStep::WarnOnLowKubeletTimeout { threshold_secs } => {
                self.stage = Stage::Probing;
                Ask::Probe { threshold_secs }
            },
            NodeStep::WaitTillReady { .. } => {
                self.stage = Stage::Waiting { since: now };
                Ask::Read
            },
            NodeStep::VerifyHandlers => {
                self.stage = Stage::Waiting { since: now };
                Ask::Read
            },
            _ => {
                if let Some(goal) = self.ops.goal_of(step) {
                    let write = GuardedWrite::new(self.node.as_str(), self.uid.as_str(), goal);
                    if let NodeStep::LabelUntilStable = step {
                        let watch = LabelWatch::new(
                            self.node.as_str(),
                            self.uid.as_str(),
                            self.wanted(),
                        );
                        self.stage = Stage::Labelling { write, watch, applying: true };
                    } else {
                        self.stage = Stage::Writing(write);
                    }
                }
                Ask::Read
            },
        }
    }

    /// The labels that the work leaves on a node it finished on.
    fn wanted(&self) -> (r: Vec<(String, Option<String>)>)
        ensures
            labels::writes(r@) == wanted_labels(self.job_ops()),
    {
        match (&self.ops.labelling, &self.ops.label_value) {
            (Some(labelling), Some(value)) => writes::finished_updates(
                labelling,
                value.as_str(),
                self.ops.extra_labels.as_slice(),
            ),
            _ => {
                let none: Vec<(String, Option<String>)> = Vec::new();
                assert(labels::writes(none@) =~= Seq::empty());
                none
            },
        }
    }

    /// The current step is done.
    fn advance(&mut self, now: u64) -> (r: Ask)
        requires
            old(self).plan@ == old(self).steps(),
            old(self).at < old(self).plan@.len(),
        ensures
            final(self).wf(),
            final(self).same_work(*old(self)),
            old(self).moves_on(*final(self), now, r),
    {
        self.at = self.at + 1;
        self.enter(now)
    }

    /// Follows a step of a write.
    fn follow_write(&mut self, step: WriteStep, write: GuardedWrite, now: u64) -> (r: Ask)
        requires
            old(self).plan@ == old(self).steps(),
            old(self).at < old(self).plan@.len(),
            fits(
                Stage::Writing(write),
                old(self).ops,
                old(self).plan@[old(self).at as int],
                old(self).node@,
                old(self).uid@,
            ),
        ensures
            final(self).wf(),
            final(self).same_work(*old(self)),
            old(self).write_leads(step, write, *final(self), now, r),
    {
        match step {
            WriteStep::Read => {
                self.stage = Stage::Writing(write);
                Ask::Read
            },
            WriteStep::Patch(patch) => {
                self.stage = Stage::Writing(write);
                Ask::Patch(patch)
            },
            WriteStep::Done => self.advance(now),
            WriteStep::Fail(why) => {
                let taints: bool = match self.plan[self.at] {
                    NodeStep::LiftTaints => true,
                    _ => false,
                };
                if taints {
                    self.lost = Some(why);
                    return self.advance(now);
                }
                self.stage = Stage::Over;
                Ask::Fail(why)
            },
        }
    }

    /// Follows a step of writing the labels.
    fn follow_apply(&mut self, step: WriteStep, write: GuardedWrite, watch: LabelWatch) -> (r: Ask)
        requires
            old(self).plan@ == old(self).steps(),
            old(self).at < old(self).plan@.len(),
            fits(
                Stage::Labelling { write, watch, applying: true },
                old(self).ops,
                old(self).plan@[old(self).at as int],
                old(self).node@,
                old(self).uid@,
            ),
        ensures
            final(self).wf(),
            final(self).same_work(*old(self)),
            old(self).apply_leads(step, write, watch, *final(self), r),
    {
        match step {
            WriteStep::Read => {
                self.stage = Stage::Labelling { write, watch, applying: true };
                Ask::Read
            },
            WriteStep::Patch(patch) => {
                self.stage = Stage::Labelling { write, watch, applying: true };
                Ask::Patch(patch)
            },
            WriteStep::Done => {
                self.stage = Stage::Labelling { write, watch, applying: false };
                Ask::ReadAfter { secs: waits::LABEL_CHECK_INTERVAL_SECS }
            },
            WriteStep::Fail(why) => {
                self.stage = Stage::Over;
                Ask::Fail(why)
            },
        }
    }

    /// Follows a look at the labels.
    fn follow_watch(
        &mut self,
        step: WatchStep,
        write: GuardedWrite,
        watch: LabelWatch,
        now: u64,
    ) -> (r: Ask)
        requires
            old(self).plan@ == old(self).steps(),
            old(self).at < old(self).plan@.len(),
            old(self).plan@[old(self).at as int] == NodeStep::LabelUntilStable,
            fits(
                Stage::Labelling { write, watch, applying: false },
                old(self).ops,
                NodeStep::LabelUntilStable,
                old(self).node@,
                old(self).uid@,
            ),
        ensures
            final(self).wf(),
            final(self).same_work(*old(self)),
            old(self).watch_leads(step, write, watch, *final(self), now, r),
    {
        match step {
            WatchStep::Check => {
                self.stage = Stage::Labelling { write, watch, applying: false };
                Ask::ReadAfter { secs: waits::LABEL_CHECK_INTERVAL_SECS }
            },
            WatchStep::Apply => {
                proof {
                    lemma_planned_steps_have_goals(self.ops, self.phase, self.at as int);
                }
                let mut write: GuardedWrite = write;
                if let Some(goal) = self.ops.goal_of(NodeStep::LabelUntilStable) {
                    write = GuardedWrite::new(self.node.as_str(), self.uid.as_str(), goal);
                }
                self.stage = Stage::Labelling { write, watch, applying: true };
                Ask::Read
            },
            WatchStep::Held => self.advance(now),
            WatchStep::Fail(why) => {
                self.stage = Stage::Over;
                Ask::Fail(why)
            },
        }
    }

    /// Takes the node as it was read.
    pub fn fetched(&mut self, answer: Result<Node, ApiError>, now: u64) -> (r: Ask)
        requires
            old(self).wf(),
        ensures
            final(self).wf(),
            final(self).same_work(*old(self)),
            old(self).read_leads(answer, now, *final(self), r),
    {
        let mut stage: Stage = Stage::Over;
        std::mem::swap(&mut stage, &mut self.stage);
        match stage {
            Stage::Checking => {
                match node_ops::ensure_uid(self.node.as_str(), self.uid.as_str(), answer) {
                    Ok(_) => self.advance(now),
                    Err(why) => Ask::Fail(why),
                }
            },
            Stage::Writing(write) => {
                let mut write: GuardedWrite = write;
                let step: WriteStep = write.read(answer);
                self.follow_write(step, write, now)
            },
            Stage::Labelling { write, watch, applying } => {
                if applying {
                    let mut write: GuardedWrite = write;
                    let step: WriteStep = write.read(answer);
                    self.follow_apply(step, write, watch)
                } else {
                    let mut watch: LabelWatch = watch;
                    let step: WatchStep = watch.observe(answer);
                    self.follow_watch(step, write, watch, now)
                }
            },
            Stage::Waiting { since } => {
                let elapsed: u64 = settle::elapsed_secs(since, now);
                let step: WaitStep = match self.plan[self.at] {
                    NodeStep::WaitTillReady { timeout_secs } => waits::wait_till_ready(
                        self.node.as_str(),
                        timeout_secs,
                        elapsed,
                        answer,
                    ),
                    _ => waits::verify_handlers(
                        self.node.as_str(),
                        self.ops.require_handlers.as_slice(),
                        elapsed,
                        answer,
                    ),
                };
                let ghost told = step;
                match step {
                    WaitStep::Done => {
                        let ask: Ask = self.advance(now);
                        assert(old(self).wait_leads(told, *self, now, ask));
                        ask
                    },
                    WaitStep::Again => {
                        self.stage = Stage::Waiting { since };
                        let ask = Ask::ReadAfter { secs: waits::NODE_POLL_SECS };
                        assert(old(self).wait_leads(told, *self, now, ask));
                        ask
                    },
                    WaitStep::Fail(why) => {
                        let ask = Ask::Fail(why);
                        assert(old(self).wait_leads(told, *self, now, ask));
                        ask
                    },
                }
            },
            Stage::Probing => {
                self.stage = Stage::Probing;
                Ask::Unexpected
            },
            Stage::Over => Ask::Unexpected,
        }
    }

    /// Takes the answer to a patch.
    pub fn patched(&mut self, answer: Result<(), ApiError>, now: u64) -> (r: Ask)
        requires
            old(self).wf(),
        ensures
            final(self).wf(),
            final(self).same_work(*old(self)),
            old(self).patch_leads(answer, now, *final(self), r),
    {
        let mut stage: Stage = Stage::Over;
        std::mem::swap(&mut stage, &mut self.stage);
        match stage {
            Stage::Writing(write) => {
                let mut write: GuardedWrite = write;
                let step: WriteStep = write.patched(answer);
                self.follow_write(step, write, now)
            },
            Stage::Labelling { write, watch, applying } => {
                if applying {
                    let mut write: GuardedWrite = write;
                    let step: WriteStep = write.patched(answer);
                    self.follow_apply(step, write, watch)
                } else {
                    self.stage = Stage::Labelling { write, watch, applying };
                    Ask::Unexpected
                }
            },
            stage => {
                self.stage = stage;
                Ask::Unexpected
            },
        }
    }

    /// The kubelet was read, or could not be.
    pub fn probed(&mut self, now: u64) -> (r: Ask)
        requires
            old(self).wf(),
        ensures
            final(self).wf(),
            final(self).same_work(*old(self)),
            old(self).probe_leads(now, *final(self), r),
    {
        match &self.stage {
            Stage::Probing => self.advance(now),
            _ => Ask::Unexpected,
        }
    }
}

/// Work is done only when every one of its steps is, one after the other: an answer that
/// ends it completes the last step.
pub proof fn law_work_ends_after_every_step(
    before: NodeWork,
    read: Result<Node, ApiError>,
    sent: Result<(), ApiError>,
    now: u64,
    after: NodeWork,
    ask: Ask,
)
    requires
        after.same_work(before),
        before.read_leads(read, now, after, ask) || before.patch_leads(sent, now, after, ask)
            || before.probe_leads(now, after, ask),
        ask is Done,
    ensures
        after.done() == before.done() + 1,
        after.done() >= after.steps().len(),
{
}

/// An answer completes one step at most, and takes none back.
pub proof fn law_work_goes_step_by_step(
    before: NodeWork,
    read: Result<Node, ApiError>,
    sent: Result<(), ApiError>,
    now: u64,
    after: NodeWork,
    ask: Ask,
)
    requires
        before.read_leads(read, now, after, ask) || before.patch_leads(sent, now, after, ask),
    ensures
        before.done() <= after.done() <= before.done() + 1,
{
}

/// Work that failed has not done all of its steps.
pub proof fn law_failed_work_is_not_done(
    before: NodeWork,
    read: Result<Node, ApiError>,
    sent: Result<(), ApiError>,
    now: u64,
    after: NodeWork,
    ask: Ask,
)
    requires
        before.done() < before.steps().len(),
        after.same_work(before),
        before.read_leads(read, now, after, ask) || before.patch_leads(sent, now, after, ask),
        ask is Fail,
    ensures
        after.done() == before.done(),
        after.done() < after.steps().len(),
        after.current() is Over,
{
}

/// What is watched on a node after it was labelled is what was written there.
pub proof fn law_what_is_watched_is_what_is_written(
    ops: NodeOps,
    write: GuardedWrite,
    watch: LabelWatch,
    node: Seq<char>,
    uid: Seq<char>,
)
    requires
        is_write(write, ops, NodeStep::LabelUntilStable, node, uid),
        is_watch(watch, ops, node, uid),
    ensures
        write.goal() matches guarded::Intent::Finish { labelling, value, extra } && watch.wanted()
            == writes::finished_labels(labelling, value@, labels::pairs(extra@)),
        watch.uid_text() == write.uid_text(),
        watch.node_text() == write.node_text(),
{
}

/// Each step that writes to the node writes what it is there for.
pub proof fn law_each_step_writes_what_it_is_for(ops: NodeOps, step: NodeStep, goal: guarded::Intent)
    requires
        node_ops::is_goal(ops, step, goal),
    ensures
        step is Demote <==> goal is Demote,
        step is Claim <==> goal is Claim,
        step is Release <==> goal is Release,
        step is LabelUntilStable <==> goal is Finish,
        step is LiftTaints <==> goal is LiftTaints,
        goal matches guarded::Intent::Finish { value, .. } ==> ops.label_value == Some(value),
        goal matches guarded::Intent::LiftTaints { matchers } ==> matchers@ == ops.remove_taints@,
        goal matches guarded::Intent::Claim { labelling } ==> ops.labelling == Some(labelling),
        goal matches guarded::Intent::Demote { labelling } ==> ops.labelling == Some(labelling),
        goal matches guarded::Intent::Release { labelling, .. } ==> ops.labelling == Some(labelling),
{
}

/// Where a check finds another machine, or cannot read the node, the work ends there; where
/// it finds the selected one, the work goes on with the next step.
pub proof fn law_another_machine_ends_the_work(
    work: NodeWork,
    node: Node,
    now: u64,
    after: NodeWork,
    ask: Ask,
)
    requires
        work.current() is Checking,
        work.read_leads(Ok(node), now, after, ask),
    ensures
        ask is Fail && after.current() is Over && after.done() == work.done() <==> !(
        node.uid is Some && node.uid->0@ == work.uid_text()),
        node.uid is Some && node.uid->0@ == work.uid_text() ==> after.done() == work.done() + 1,
{
}

/// Taints that could not be lifted do not fail the work: it goes on, and why they were not is
/// kept. Any other write that could not be made ends the work with its reason, and one that
/// was made lets it go on.
pub proof fn law_only_taints_may_stay(
    work: NodeWork,
    step: WriteStep,
    write: GuardedWrite,
    after: NodeWork,
    now: u64,
    ask: Ask,
)
    requires
        work.write_leads(step, write, after, now, ask),
    ensures
        step is Done ==> after.done() == work.done() + 1 && after.lost_text() == work.lost_text(),
        step matches WriteStep::Fail(why) ==> if work.steps()[work.done()]
            == NodeStep::LiftTaints {
            after.done() == work.done() + 1 && after.lost_text() == Some(why@)
        } else {
            ask matches Ask::Fail(said) && said@ == why@ && after.done() == work.done()
        },
        step matches WriteStep::Patch(patch) ==> ask == Ask::Patch(patch) && after.done()
            == work.done(),
        step is Read ==> ask is Read && after.done() == work.done(),
{
}

/// Labels that were written are looked at before the work goes on, and it goes on only once
/// they are seen to hold; labels that drifted are written again.
pub proof fn law_labels_are_watched_before_the_work_goes_on(
    work: NodeWork,
    applied: WriteStep,
    looked: WatchStep,
    write: GuardedWrite,
    watch: LabelWatch,
    written: NodeWork,
    watched: NodeWork,
    now: u64,
    first: Ask,
    second: Ask,
)
    requires
        work.apply_leads(applied, write, watch, written, first),
        work.watch_leads(looked, write, watch, watched, now, second),
    ensures
        written.done() == work.done(),
        applied is Done ==> first is ReadAfter && written.current() is Labelling,
        watched.done() == work.done() + 1 <==> looked is Held,
        looked is Apply ==> second is Read && watched.current() is Labelling,
        looked is Fail ==> second is Fail,
{
}

/// A wait lets the work go on only where what it waits for is there, and ends the work only
/// where the wait failed.
pub proof fn law_a_wait_lets_the_work_go_on(
    work: NodeWork,
    step: WaitStep,
    after: NodeWork,
    now: u64,
    ask: Ask,
)
    requires
        work.wait_leads(step, after, now, ask),
    ensures
        after.done() == work.done() + 1 <==> step is Done,
        step is Fail ==> ask is Fail,
        step is Again ==> ask is ReadAfter && after.current() == work.current(),
{
}

} // verus!
