//! A node's turn: from being taken off the queue to its Job being there, or to the reason
//! why there is none.
//!
//! The Job is created only after the node was read again and is the machine that was
//! selected, still matches the selection, may run the Job, and has had everything done to
//! it that comes before.

use crate::args::Args;
use crate::dispatch;
use crate::dispatch::{Creation, Reread, Vetting};
use crate::job;
use crate::job::TrackingLabels;
use crate::node_filter;
use crate::node_filter::PodAdmission;
use crate::node_ops;
use crate::node_ops::NodeOps;
use crate::nodes;
use crate::nodes::NodeFacts;
use crate::objects;
use crate::objects::{ApiError, JobRecord, Node, OwnerReference};
use crate::owners;
use crate::owners::{Adoption, Disposition};
use crate::selection;
use crate::selection::Recheck;
use crate::takeover::{ReplaceStep, Replacement};
use crate::text;
use crate::work::{Ask, NodeWork, Phase};
use vstd::prelude::*;
use vstd::string::*;

verus! {

/// What every turn of a run goes by.
#[derive(Debug)]
pub struct Run {
    pub args: Args,
    pub admission: PodAdmission,
    pub ops: NodeOps,
    pub tracking: TrackingLabels,
    /// The value of the owner label.
    pub owner_value: String,
    pub owner: Option<OwnerReference>,
}

impl Run {
    /// The UID of the Job that drives the run, where it has one.
    pub open spec fn owner_uid(self) -> Option<Seq<char>> {
        match self.owner {
            Some(owner) => Some(owner.uid@),
            None => None,
        }
    }

    /// The Job that drives the run, and the label selector of the Jobs to look through for
    /// those that an earlier run left. Without such a Job there is nothing to tell this
    /// run's Jobs from an earlier run's by, so none are looked for.
    pub fn sweep(&self) -> (r: Option<(&OwnerReference, String)>)
        ensures
            match r {
                Some((owner, selector)) => self.owner == Some(*owner) && selector@
                    == self.tracking.owner@ + "="@ + self.owner_value@,
                None => self.owner is None,
            },
    {
        match &self.owner {
            Some(owner) => Some(
                (owner, owners::owned_jobs_selector(&self.tracking, self.owner_value.as_str())),
            ),
            None => None,
        }
    }
}

/// Whose failure it is.
#[derive(Debug, Clone, Copy, PartialEq, Eq, Structural)]
pub enum Blame {
    /// The node as it was selected.
    Selected,
    /// The node as it was read again.
    Fresh,
    /// No node: the machine now answering to the name was never acted on.
    Nobody,
}

/// How a Job came to be there.
#[derive(Debug, Clone, Copy, PartialEq, Eq, Structural)]
pub enum Provenance {
    /// It was created.
    Created,
    /// It is this run's own, from before it restarted.
    Adopted,
    /// It was created in place of one that an earlier run left.
    Recreated,
}

/// What is to be done next.
#[derive(Debug)]
pub enum TurnAsk {
    /// Read the node.
    ReadNode,
    /// Ask whether the node is in a list with this field selector, once per label selector.
    AskSelection { field_selector: String },
    /// Do what the work before the Job asks for.
    Work(Ask),
    /// Create the Job.
    CreateJob,
    /// Wait for the interval between two tries to create the Job.
    Pause,
    /// Read the Job that has the name.
    ReadJob,
    /// Delete the Job that has the name, in the foreground.
    DeleteJob,
    /// Nothing more: the Job is there.
    Dispatched(Provenance),
    /// Nothing more: the node is left as it is, which is a success.
    LeaveAlone,
    /// Nothing more: there is no Job, and why.
    Refuse { reason: String, blame: Blame },
    /// Nothing: this was not asked for.
    Unexpected,
}

/// How far a turn has come.
#[derive(Debug, Clone, Copy, PartialEq, Eq, Structural)]
pub enum TurnStage {
    /// The node is read again.
    Reading,
    /// Whether it is still selected is asked.
    Asking,
    /// What comes before the Job is done.
    Working,
    /// The Job is created.
    Creating,
    /// The Job that has the name is read.
    Fetching,
    /// The Job that has the name is deleted.
    Deleting,
    /// The Job is created in its place.
    Recreating,
    /// Its name is not free yet.
    Pausing,
    /// It is over.
    Over,
}

/// A node's turn.
#[derive(Debug)]
pub struct Turn<'a> {
    run: &'a Run,
    name: String,
    uid: String,
    job: String,
    fresh: Option<Node>,
    still_selected: bool,
    facts: NodeFacts,
    work: Option<NodeWork>,
    replacement: Replacement,
    stage: TurnStage,
}

impl<'a> Turn<'a> {
    /// The run.
    pub closed spec fn of(self) -> Run {
        *self.run
    }

    /// The node's name.
    pub closed spec fn node_text(self) -> Seq<char> {
        self.name@
    }

    /// The UID that the node was selected as.
    pub closed spec fn uid_text(self) -> Seq<char> {
        self.uid@
    }

    /// The Job's name.
    pub open spec fn job_text(self) -> Seq<char> {
        job::job_name_text(self.of().owner_value@, self.node_text())
    }

    /// The node as it was read again.
    pub closed spec fn reread_node(self) -> Option<Node> {
        self.fresh
    }

    /// Whether the node was found in the selection still.
    pub closed spec fn found_selected(self) -> bool {
        self.still_selected
    }

    /// The facts for the Job.
    pub closed spec fn known_facts(self) -> NodeFacts {
        self.facts
    }

    /// The work before the Job.
    pub closed spec fn preparation(self) -> Option<NodeWork> {
        self.work
    }

    /// The replacement of a Job that has the name.
    pub closed spec fn replacing(self) -> Replacement {
        self.replacement
    }

    /// How far it has come.
    pub closed spec fn at(self) -> TurnStage {
        self.stage
    }

    /// The same turn, however far it has come.
    pub open spec fn same_turn(self, other: Turn) -> bool {
        &&& self.of() == other.of()
        &&& self.node_text() == other.node_text()
        &&& self.uid_text() == other.uid_text()
    }

    /// The machine is the one that was selected.
    pub open spec fn identified(self) -> bool {
        self.reread_node() is Some && text::opt_text(self.reread_node()->0.uid) == Some(
            self.uid_text(),
        )
    }

    /// The node may be dispatched to.
    pub open spec fn vetted(self) -> bool {
        self.identified() && dispatch::vetting_gives(
            self.of().args,
            self.found_selected(),
            self.reread_node()->0,
            self.of().admission,
            Vetting::Go(self.known_facts()),
        )
    }

    /// The work before the Job is the run's, on this node.
    pub open spec fn is_preparation(self, work: NodeWork) -> bool {
        &&& work.wf()
        &&& work.node_text() == self.node_text()
        &&& work.uid_text() == self.uid_text()
        &&& work.half() == Phase::Before
        &&& node_ops::same_ops(work.job_ops(), self.of().ops)
    }

    /// Everything that comes before the Job is done: the node may be dispatched to, and
    /// every step of the work is complete.
    pub open spec fn cleared(self) -> bool {
        &&& self.vetted()
        &&& self.preparation() is Some
        &&& self.is_preparation(self.preparation()->0)
        &&& self.preparation()->0.done() >= self.preparation()->0.steps().len()
    }

    /// What is known at each stage.
    pub closed spec fn wf(self) -> bool {
        &&& self.job@ == self.job_text()
        &&& self.replacement.job_text() == self.job_text()
        &&& match self.stage {
            TurnStage::Reading => true,
            TurnStage::Asking => self.identified(),
            TurnStage::Working => self.vetted() && self.work is Some && self.is_preparation(
                self.work->0,
            ),
            TurnStage::Over => true,
            _ => self.cleared(),
        }
    }

    /// It is over, with this.
    pub open spec fn ends(self, after: Turn, why: Seq<char>, whose: Blame, ask: TurnAsk) -> bool {
        &&& ask matches TurnAsk::Refuse { reason, blame } && reason@ == why && blame == whose
        &&& after.at() == TurnStage::Over
    }

    /// What deciding on the node leads to.
    pub open spec fn vetting_leads(
        self,
        fresh: Node,
        still: bool,
        now: u64,
        after: Turn,
        ask: TurnAsk,
    ) -> bool {
        &&& after.replacing() == self.replacing()
        &&& after.reread_node() == Some(fresh)
        &&& after.found_selected() == still
        &&& exists|v: Vetting|
            {
                &&& #[trigger] dispatch::vetting_gives(
                    self.of().args,
                    still,
                    fresh,
                    self.of().admission,
                    v,
                )
                &&& match v {
                    Vetting::LeaveAlone => ask is LeaveAlone && after.at() == TurnStage::Over
                        && self.waits(after),
                    Vetting::Refuse { reason } => self.ends(after, reason@, Blame::Fresh, ask)
                        && self.waits(after),
                    Vetting::Go(facts) => {
                        &&& after.at() == TurnStage::Working
                        &&& after.known_facts() == facts
                        &&& after.preparation() is Some
                        &&& after.is_preparation(after.preparation()->0)
                        &&& after.preparation()->0.done() == 0
                        &&& ask matches TurnAsk::Work(asked) && after.preparation()->0.starts(
                            now,
                            asked,
                        )
                    },
                }
            }
    }

    /// What reading the node again leads to.
    pub open spec fn reread_leads(
        self,
        fetched: Result<Node, ApiError>,
        now: u64,
        after: Turn,
        ask: TurnAsk,
    ) -> bool {
        &&& after.replacing() == self.replacing()
        &&& exists|r: Reread|
            {
                &&& #[trigger] dispatch::reread_gives(self.node_text(), self.uid_text(), fetched, r)
                &&& match r {
                    Reread::Unread { reason } => self.ends(after, reason@, Blame::Selected, ask)
                        && self.keeps(after),
                    Reread::Replaced { reason } => self.ends(after, reason@, Blame::Nobody, ask)
                        && self.keeps(after),
                    Reread::Same(fresh) => match self.of().args.nodes {
                        Some(list) => self.vetting_leads(
                            fresh,
                            selection::is_named(list@, self.node_text()),
                            now,
                            after,
                            ask,
                        ),
                        None => {
                            &&& after.at() == TurnStage::Asking
                            &&& after.reread_node() == Some(fresh)
                            &&& after.found_selected() == self.found_selected()
                            &&& self.waits(after)
                            &&& ask matches TurnAsk::AskSelection { field_selector }
                                && field_selector@ == selection::one_node_selector(
                                text::opt_text(self.of().args.node_field_selector),
                                self.node_text(),
                            )
                        },
                    },
                }
            }
    }

    /// What an answer of the work leads to.
    pub open spec fn work_leads(self, asked: Ask, work: NodeWork, after: Turn, ask: TurnAsk) -> bool {
        &&& after.preparation() == Some(work)
        &&& after.reread_node() == self.reread_node()
        &&& after.found_selected() == self.found_selected()
        &&& after.known_facts() == self.known_facts()
        &&& after.replacing() == self.replacing()
        &&& match asked {
            Ask::Done => ask is CreateJob && after.at() == TurnStage::Creating,
            Ask::Fail(why) => self.ends(after, why@, Blame::Fresh, ask),
            _ => ask == TurnAsk::Work(asked) && after.at() == TurnStage::Working,
        }
    }

    /// Nothing was asked for, so nothing happens.
    pub open spec fn ignores(self, after: Turn, ask: TurnAsk) -> bool {
        &&& ask is Unexpected
        &&& after.at() == self.at()
        &&& after.replacing() == self.replacing()
        &&& self.keeps(after)
    }

    /// No facts are taken and no work is started.
    pub open spec fn waits(self, after: Turn) -> bool {
        &&& after.known_facts() == self.known_facts()
        &&& after.preparation() == self.preparation()
    }

    /// Nothing new is learnt of the node.
    pub open spec fn keeps(self, after: Turn) -> bool {
        &&& after.reread_node() == self.reread_node()
        &&& after.found_selected() == self.found_selected()
        &&& self.waits(after)
    }

    /// What creating the Job leads to.
    pub open spec fn creation_leads(
        self,
        answer: Result<(), ApiError>,
        after: Turn,
        ask: TurnAsk,
    ) -> bool {
        match self.at() {
            TurnStage::Creating => self.keeps(after) && after.replacing() == self.replacing()
                && exists|c: Creation|
                {
                    &&& #[trigger] dispatch::creation_gives(self.job_text(), answer, c)
                    &&& match c {
                        Creation::Created => ask == TurnAsk::Dispatched(Provenance::Created)
                            && after.at() == TurnStage::Over,
                        Creation::Taken => ask is ReadJob && after.at() == TurnStage::Fetching,
                        Creation::Refused { reason } => self.ends(
                            after,
                            reason@,
                            Blame::Fresh,
                            ask,
                        ),
                    }
                },
            TurnStage::Recreating => self.keeps(after) && exists|s: ReplaceStep|
                {
                    &&& #[trigger] self.replacing().creation_gives(answer, after.replacing(), s)
                    &&& match s {
                        ReplaceStep::Done => ask == TurnAsk::Dispatched(Provenance::Recreated)
                            && after.at() == TurnStage::Over,
                        ReplaceStep::Fail(why) => self.ends(after, why@, Blame::Fresh, ask),
                        _ => ask is Pause && after.at() == TurnStage::Pausing,
                    }
                },
            _ => self.ignores(after, ask),
        }
    }

    /// What reading the Job that has the name leads to.
    pub open spec fn fetch_leads(
        self,
        fetched: Result<JobRecord, ApiError>,
        after: Turn,
        ask: TurnAsk,
    ) -> bool {
        if self.at() == TurnStage::Fetching {
            self.keeps(after) && after.replacing() == self.replacing() && exists|a: Adoption|
                {
                    &&& #[trigger] owners::adoption_gives(
                        self.job_text(),
                        fetched,
                        self.of().owner_value@,
                        self.of().owner_uid(),
                        self.of().tracking,
                        a,
                    )
                    &&& match a {
                        Adoption::Adopt => ask == TurnAsk::Dispatched(Provenance::Adopted)
                            && after.at() == TurnStage::Over,
                        Adoption::Replace => ask is DeleteJob && after.at() == TurnStage::Deleting,
                        Adoption::Refuse(why) => self.ends(after, why@, Blame::Fresh, ask),
                    }
                }
        } else {
            self.ignores(after, ask)
        }
    }

    /// What deleting the Job that has the name leads to.
    pub open spec fn deletion_leads(
        self,
        answer: Result<(), ApiError>,
        after: Turn,
        ask: TurnAsk,
    ) -> bool {
        if self.at() == TurnStage::Deleting {
            self.keeps(after) && after.replacing() == self.replacing() && exists|s: ReplaceStep|
                {
                    &&& #[trigger] self.replacing().deletion_gives(answer, s)
                    &&& match s {
                        ReplaceStep::Fail(why) => self.ends(after, why@, Blame::Fresh, ask),
                        _ => ask is CreateJob && after.at() == TurnStage::Recreating,
                    }
                }
        } else {
            self.ignores(after, ask)
        }
    }

    /// What comes after the interval between two tries.
    pub open spec fn pause_leads(self, after: Turn, ask: TurnAsk) -> bool {
        if self.at() == TurnStage::Pausing {
            self.keeps(after) && after.replacing() == self.replacing() && exists|s: ReplaceStep|
                {
                    &&& #[trigger] self.replacing().waiting_gives(s)
                    &&& match s {
                        ReplaceStep::Fail(why) => self.ends(after, why@, Blame::Fresh, ask),
                        _ => ask is CreateJob && after.at() == TurnStage::Recreating,
                    }
                }
        } else {
            self.ignores(after, ask)
        }
    }

    /// A turn that starts with reading the node again.
    pub fn new(run: &'a Run, name: &str, expected_uid: &str) -> (r: Self)
        ensures
            r.wf(),
            r.of() == *run,
            r.node_text() == name@,
            r.uid_text() == expected_uid@,
            r.at() == TurnStage::Reading,
            r.reread_node() is None,
            !r.found_selected(),
            r.preparation() is None,
            r.replacing().tried() == 0,
    {
        let job: String = job::job_name(run.owner_value.as_str(), name);
        let replacement: Replacement = Replacement::new(job.as_str());
        Turn {
            run,
            name: name.to_string(),
            uid: expected_uid.to_string(),
            job,
            fresh: None,
            still_selected: false,
            facts: NodeFacts {
                name: String::new(),
                container_runtime_version: None,
                machine_id: None,
            },
            work: None,
            replacement,
            stage: TurnStage::Reading,
        }
    }

    /// What the Job is called.
    pub fn job(&self) -> (r: &str)
        requires
            self.wf(),
        ensures
            r@ == self.job_text(),
    {
        self.job.as_str()
    }

    /// The node as it was read again.
    pub fn fresh(&self) -> (r: &Option<Node>)
        ensures
            *r == self.reread_node(),
    {
        &self.fresh
    }

    /// The facts for the Job.
    pub fn facts(&self) -> (r: &NodeFacts)
        ensures
            *r == self.known_facts(),
    {
        &self.facts
    }

    fn refuse(&mut self, reason: String, blame: Blame) -> (r: TurnAsk)
        requires
            old(self).wf(),
        ensures
            final(self).wf(),
            final(self).same_turn(*old(self)),
            old(self).keeps(*final(self)),
            final(self).replacing() == old(self).replacing(),
            old(self).ends(*final(self), reason@, blame, r),
    {
        self.stage = TurnStage::Over;
        TurnAsk::Refuse { reason, blame }
    }

    /// Decides on the node.
    fn vet(&mut self, fresh: Node, still_selected: bool, now: u64) -> (r: TurnAsk)
        requires
            old(self).wf(),
            text::opt_text(fresh.uid) == Some(old(self).uid_text()),
        ensures
            final(self).wf(),
            final(self).same_turn(*old(self)),
            old(self).vetting_leads(fresh, still_selected, now, *final(self), r),
    {
        let verdict: Vetting = dispatch::revalidate(
            &self.run.args,
            still_selected,
            &fresh,
            &self.run.admission,
        );
        self.fresh = Some(fresh);
        self.still_selected = still_selected;
        match verdict {
            Vetting::LeaveAlone => {
                self.stage = TurnStage::Over;
                TurnAsk::LeaveAlone
            },
            Vetting::Refuse { reason } => {
                self.stage = TurnStage::Over;
                TurnAsk::Refuse { reason, blame: Blame::Fresh }
            },
            Vetting::Go(facts) => {
                self.facts = facts;
                let mut work: NodeWork = NodeWork::new(
                    self.run.ops.clone(),
                    self.name.as_str(),
                    self.uid.as_str(),
                    Phase::Before,
                );
                let asked: Ask = work.begin(now);
                self.work = Some(work);
                self.stage = TurnStage::Working;
                TurnAsk::Work(asked)
            },
        }
    }

    /// Follows an answer of the work.
    fn follow(&mut self, asked: Ask, work: NodeWork) -> (r: TurnAsk)
        requires
            old(self).vetted(),
            old(self).job@ == old(self).job_text(),
            old(self).replacement.job_text() == old(self).job_text(),
            old(self).is_preparation(work),
            asked is Done ==> work.done() >= work.steps().len(),
        ensures
            final(self).wf(),
            final(self).same_turn(*old(self)),
            old(self).work_leads(asked, work, *final(self), r),
    {
        self.work = Some(work);
        match asked {
            Ask::Done => {
                self.stage = TurnStage::Creating;
                TurnAsk::CreateJob
            },
            Ask::Fail(why) => {
                self.stage = TurnStage::Over;
                TurnAsk::Refuse { reason: why, blame: Blame::Fresh }
            },
            asked => {
                self.stage = TurnStage::Working;
                TurnAsk::Work(asked)
            },
        }
    }

    /// Takes the node as it was read.
    pub fn node_read(&mut self, fetched: Result<Node, ApiError>, now: u64) -> (r: TurnAsk)
        requires
            old(self).wf(),
        ensures
            final(self).wf(),
            final(self).same_turn(*old(self)),
            match old(self).at() {
                TurnStage::Reading => old(self).reread_leads(fetched, now, *final(self), r),
                TurnStage::Working => exists|asked: Ask, work: NodeWork|
                    #[trigger] old(self).preparation()->0.read_leads(fetched, now, work, asked)
                        && old(self).work_leads(asked, work, *final(self), r),
                _ => old(self).ignores(*final(self), r),
            },
            r is CreateJob ==> final(self).cleared(),
    {
        match self.stage {
            TurnStage::Reading => {
                let read: Reread = dispatch::reread(self.name.as_str(), self.uid.as_str(), fetched);
                let ghost told = read;
                let ask: TurnAsk = match read {
                    Reread::Unread { reason } => self.refuse(reason, Blame::Selected),
                    Reread::Replaced { reason } => self.refuse(reason, Blame::Nobody),
                    Reread::Same(fresh) => {
                        match selection::node_still_selected(&self.run.args, self.name.as_str()) {
                            Recheck::Known(still) => self.vet(fresh, still, now),
                            Recheck::Ask { field_selector } => {
                                self.fresh = Some(fresh);
                                self.stage = TurnStage::Asking;
                                TurnAsk::AskSelection { field_selector }
                            },
                        }
                    },
                };
                assert(dispatch::reread_gives(
                    old(self).node_text(),
                    old(self).uid_text(),
                    fetched,
                    told,
                ));
                ask
            },
            TurnStage::Working => {
                let mut held: Option<NodeWork> = None;
                std::mem::swap(&mut held, &mut self.work);
                match held {
                    Some(work) => {
                        let mut work: NodeWork = work;
                        let asked: Ask = work.fetched(fetched, now);
                        self.follow(asked, work)
                    },
                    None => TurnAsk::Unexpected,
                }
            },
            _ => TurnAsk::Unexpected,
        }
    }

    /// Takes the answer to whether the node is still selected.
    pub fn selection_read(&mut self, still_selected: bool, now: u64) -> (r: TurnAsk)
        requires
            old(self).wf(),
        ensures
            final(self).wf(),
            final(self).same_turn(*old(self)),
            if old(self).at() == TurnStage::Asking {
                old(self).vetting_leads(
                    old(self).reread_node()->0,
                    still_selected,
                    now,
                    *final(self),
                    r,
                )
            } else {
                old(self).ignores(*final(self), r)
            },
            !(r is CreateJob),
    {
        match self.stage {
            TurnStage::Asking => {
                let mut fresh: Option<Node> = None;
                std::mem::swap(&mut fresh, &mut self.fresh);
                match fresh {
                    Some(fresh) => {
                        self.stage = TurnStage::Reading;
                        self.vet(fresh, still_selected, now)
                    },
                    None => TurnAsk::Unexpected,
                }
            },
            _ => TurnAsk::Unexpected,
        }
    }

    /// Takes the answer to a patch.
    pub fn patched(&mut self, answer: Result<(), ApiError>, now: u64) -> (r: TurnAsk)
        requires
            old(self).wf(),
        ensures
            final(self).wf(),
            final(self).same_turn(*old(self)),
            if old(self).at() == TurnStage::Working {
                exists|asked: Ask, work: NodeWork|
                    #[trigger] old(self).preparation()->0.patch_leads(answer, now, work, asked)
                        && old(self).work_leads(asked, work, *final(self), r)
            } else {
                old(self).ignores(*final(self), r)
            },
            r is CreateJob ==> final(self).cleared(),
    {
        match self.stage {
            TurnStage::Working => {
                let mut held: Option<NodeWork> = None;
                std::mem::swap(&mut held, &mut self.work);
                match held {
                    Some(work) => {
                        let mut work: NodeWork = work;
                        let asked: Ask = work.patched(answer, now);
                        self.follow(asked, work)
                    },
                    None => TurnAsk::Unexpected,
                }
            },
            _ => TurnAsk::Unexpected,
        }
    }

    /// The kubelet was read, or could not be.
    pub fn probed(&mut self, now: u64) -> (r: TurnAsk)
        requires
            old(self).wf(),
        ensures
            final(self).wf(),
            final(self).same_turn(*old(self)),
            if old(self).at() == TurnStage::Working {
                exists|asked: Ask, work: NodeWork|
                    #[trigger] old(self).preparation()->0.probe_leads(now, work, asked)
                        && old(self).work_leads(asked, work, *final(self), r)
            } else {
                old(self).ignores(*final(self), r)
            },
            r is CreateJob ==> final(self).cleared(),
    {
        match self.stage {
            TurnStage::Working => {
                let mut held: Option<NodeWork> = None;
                std::mem::swap(&mut held, &mut self.work);
                match held {
                    Some(work) => {
                        let mut work: NodeWork = work;
                        let asked: Ask = work.probed(now);
                        self.follow(asked, work)
                    },
                    None => TurnAsk::Unexpected,
                }
            },
            _ => TurnAsk::Unexpected,
        }
    }

    /// Takes the answer to creating the Job.
    pub fn created(&mut self, answer: Result<(), ApiError>) -> (r: TurnAsk)
        requires
            old(self).wf(),
        ensures
            final(self).wf(),
            final(self).same_turn(*old(self)),
            old(self).creation_leads(answer, *final(self), r),
            r is Dispatched ==> final(self).cleared(),
            r is CreateJob ==> final(self).cleared(),
    {
        match self.stage {
            TurnStage::Creating => {
                match dispatch::creation(self.job.as_str(), answer) {
                    Creation::Created => {
                        self.stage = TurnStage::Over;
                        TurnAsk::Dispatched(Provenance::Created)
                    },
                    Creation::Taken => {
                        self.stage = TurnStage::Fetching;
                        TurnAsk::ReadJob
                    },
                    Creation::Refused { reason } => self.refuse(reason, Blame::Fresh),
                }
            },
            TurnStage::Recreating => {
                let step: ReplaceStep = self.replacement.created(answer);
                let ghost told = step;
                let ask: TurnAsk = match step {
                    ReplaceStep::Done => {
                        self.stage = TurnStage::Over;
                        TurnAsk::Dispatched(Provenance::Recreated)
                    },
                    ReplaceStep::Fail(why) => self.refuse(why, Blame::Fresh),
                    _ => {
                        self.stage = TurnStage::Pausing;
                        TurnAsk::Pause
                    },
                };
                assert(old(self).replacing().creation_gives(answer, self.replacing(), told));
                ask
            },
            _ => TurnAsk::Unexpected,
        }
    }

    /// Takes the Job that has the name, as it was read.
    pub fn job_read(&mut self, fetched: Result<JobRecord, ApiError>) -> (r: TurnAsk)
        requires
            old(self).wf(),
        ensures
            final(self).wf(),
            final(self).same_turn(*old(self)),
            old(self).fetch_leads(fetched, *final(self), r),
            r is Dispatched ==> final(self).cleared(),
            !(r is CreateJob),
    {
        match self.stage {
            TurnStage::Fetching => {
                let owner: Option<&OwnerReference> = match &self.run.owner {
                    Some(owner) => Some(owner),
                    None => None,
                };
                match owners::adopt_or_replace(
                    self.job.as_str(),
                    fetched,
                    self.run.owner_value.as_str(),
                    owner,
                    &self.run.tracking,
                ) {
                    Adoption::Adopt => {
                        self.stage = TurnStage::Over;
                        TurnAsk::Dispatched(Provenance::Adopted)
                    },
                    Adoption::Replace => {
                        self.stage = TurnStage::Deleting;
                        TurnAsk::DeleteJob
                    },
                    Adoption::Refuse(why) => self.refuse(why, Blame::Fresh),
                }
            },
            _ => TurnAsk::Unexpected,
        }
    }

    /// The interval between two tries is over.
    pub fn paused(&mut self) -> (r: TurnAsk)
        requires
            old(self).wf(),
        ensures
            final(self).wf(),
            final(self).same_turn(*old(self)),
            old(self).pause_leads(*final(self), r),
            r is CreateJob ==> final(self).cleared(),
    {
        match self.stage {
            TurnStage::Pausing => {
                match self.replacement.waited() {
                    ReplaceStep::Fail(why) => self.refuse(why, Blame::Fresh),
                    _ => {
                        self.stage = TurnStage::Recreating;
                        TurnAsk::CreateJob
                    },
                }
            },
            _ => TurnAsk::Unexpected,
        }
    }

    /// Takes the answer to deleting the Job that has the name.
    pub fn job_deleted(&mut self, answer: Result<(), ApiError>) -> (r: TurnAsk)
        requires
            old(self).wf(),
        ensures
            final(self).wf(),
            final(self).same_turn(*old(self)),
            old(self).deletion_leads(answer, *final(self), r),
            r is CreateJob ==> final(self).cleared(),
    {
        match self.stage {
            TurnStage::Deleting => {
                match self.replacement.deleted(answer) {
                    ReplaceStep::Fail(why) => self.refuse(why, Blame::Fresh),
                    _ => {
                        self.stage = TurnStage::Recreating;
                        TurnAsk::CreateJob
                    },
                }
            },
            _ => TurnAsk::Unexpected,
        }
    }
}

/// A Job is created only for a node that everything before it was done to: from its
/// creation on, a turn is cleared.
pub proof fn law_a_job_waits_for_every_check(turn: Turn)
    requires
        turn.wf(),
        turn.at() != TurnStage::Reading,
        turn.at() != TurnStage::Asking,
        turn.at() != TurnStage::Working,
        turn.at() != TurnStage::Over,
    ensures
        turn.cleared(),
{
}

/// What it takes to be cleared: the node is the machine that was selected; it matches the
/// selection, or left it where the run cleans such nodes; no taint keeps the Job off it, as
/// far as the run minds taints; and it reports what the run requires.
pub proof fn law_cleared_nodes_are_fit(turn: Turn)
    requires
        turn.cleared(),
    ensures
        turn.reread_node() is Some,
        text::opt_text(turn.reread_node()->0.uid) == Some(turn.uid_text()),
        turn.found_selected() != turn.of().args.removed_node_cleanup,
        !dispatch::is_shut(turn.of().args, turn.reread_node()->0, turn.of().admission),
        turn.of().args.require_node_runtime_version
            ==> turn.known_facts().container_runtime_version is Some,
        turn.of().args.require_node_machine_id ==> turn.known_facts().machine_id is Some,
{
}

/// A machine that took over a node's name gets no Job, and no failure is held against it.
pub proof fn law_a_replaced_machine_is_left_alone(
    turn: Turn,
    found: Node,
    now: u64,
    after: Turn,
    ask: TurnAsk,
)
    requires
        turn.reread_leads(Ok(found), now, after, ask),
        text::opt_text(found.uid) != Some(turn.uid_text()),
    ensures
        ask matches TurnAsk::Refuse { blame, .. } && blame == Blame::Nobody,
        after.at() == TurnStage::Over,
{
}

/// A node that left the selection while the rollout was running is not touched: its turn
/// ends before any work on it starts. For the pass that cleans such nodes it is the other
/// way round: one that came back is left as it is.
pub proof fn law_a_changed_selection_dismantles_nothing(
    turn: Turn,
    fresh: Node,
    still: bool,
    now: u64,
    after: Turn,
    ask: TurnAsk,
)
    requires
        turn.vetting_leads(fresh, still, now, after, ask),
        still == turn.of().args.removed_node_cleanup,
    ensures
        after.at() == TurnStage::Over,
        if turn.of().args.removed_node_cleanup {
            ask is LeaveAlone
        } else {
            ask matches TurnAsk::Refuse { reason, blame } && reason@
                == dispatch::left_selection_text() && blame == Blame::Fresh
        },
{
}

/// A Job that another owner's label or no label marks is neither adopted nor deleted.
pub proof fn law_a_foreign_job_is_left_alone(
    turn: Turn,
    found: JobRecord,
    after: Turn,
    ask: TurnAsk,
)
    requires
        turn.at() == TurnStage::Fetching,
        turn.fetch_leads(Ok(found), after, ask),
        !job::is_owned_by(found, turn.of().tracking, turn.of().owner_value@),
    ensures
        ask is Refuse,
        after.at() == TurnStage::Over,
{
}

/// A Job that an earlier run left is never taken for this run's result: it is deleted and
/// created anew.
pub proof fn law_a_stale_job_is_replaced(turn: Turn, found: JobRecord, after: Turn, ask: TurnAsk)
    requires
        turn.at() == TurnStage::Fetching,
        turn.fetch_leads(Ok(found), after, ask),
        owners::disposition_of(
            found,
            turn.of().owner_value@,
            turn.of().owner_uid(),
            turn.of().tracking,
        ) == Disposition::Stale,
    ensures
        ask is DeleteJob,
        after.at() == TurnStage::Deleting,
{
}

/// A Job that was created ends the turn with it in flight; a name that is taken has the Job
/// read that has it; and any other refusal fails the node.
pub proof fn law_a_created_job_is_dispatched(
    turn: Turn,
    answer: Result<(), ApiError>,
    after: Turn,
    ask: TurnAsk,
)
    requires
        turn.at() == TurnStage::Creating,
        turn.creation_leads(answer, after, ask),
    ensures
        ask == TurnAsk::Dispatched(Provenance::Created) <==> answer is Ok,
        ask is ReadJob <==> answer is Err && answer->Err_0.code == Some(409u16),
        answer is Err && answer->Err_0.code != Some(409u16) ==> ask is Refuse,
{
}

/// A Job of this run that has the name already is adopted, never deleted.
pub proof fn law_this_runs_job_is_adopted(
    turn: Turn,
    found: JobRecord,
    after: Turn,
    ask: TurnAsk,
)
    requires
        turn.at() == TurnStage::Fetching,
        turn.fetch_leads(Ok(found), after, ask),
        owners::is_labelled(found, turn.of().tracking.owner@, turn.of().owner_value@),
        turn.of().owner matches Some(owner) ==> owners::names_owner(found, owner.uid@),
    ensures
        ask == TurnAsk::Dispatched(Provenance::Adopted),
        after.at() == TurnStage::Over,
{
    owners::law_a_job_belongs_to_whom_it_names(
        found,
        turn.of().owner_value@,
        turn.of().owner_uid(),
        turn.of().tracking,
    );
}

/// A Job is deleted only where it carries the run's owner label without naming the run's Job.
pub proof fn law_only_an_earlier_runs_job_is_deleted(
    turn: Turn,
    fetched: Result<JobRecord, ApiError>,
    after: Turn,
    ask: TurnAsk,
)
    requires
        turn.at() == TurnStage::Fetching,
        turn.fetch_leads(fetched, after, ask),
    ensures
        ask is DeleteJob <==> {
            &&& fetched is Ok
            &&& owners::is_labelled(
                fetched->Ok_0,
                turn.of().tracking.owner@,
                turn.of().owner_value@,
            )
            &&& turn.of().owner is Some
            &&& !owners::names_owner(fetched->Ok_0, turn.of().owner->0.uid@)
        },
        fetched is Err ==> ask is Refuse,
{
    if let Ok(found) = fetched {
        owners::law_a_job_belongs_to_whom_it_names(
            found,
            turn.of().owner_value@,
            turn.of().owner_uid(),
            turn.of().tracking,
        );
    }
}

/// A Job is created anew only once the old one was deleted or is gone, and again for as long
/// as its name is still taken and tries are left.
pub proof fn law_a_job_is_replaced_step_by_step(
    turn: Turn,
    answer: Result<(), ApiError>,
    deleted: Turn,
    created: Turn,
    first: TurnAsk,
    second: TurnAsk,
)
    ensures
        turn.at() == TurnStage::Deleting && turn.deletion_leads(answer, deleted, first) ==> (
        first is CreateJob <==> answer is Ok || answer->Err_0.code == Some(404u16)),
        turn.at() == TurnStage::Deleting && turn.deletion_leads(answer, deleted, first) && !(
        first is CreateJob) ==> first is Refuse,
        turn.at() == TurnStage::Recreating && turn.creation_leads(answer, created, second) ==> (
        second == TurnAsk::Dispatched(Provenance::Recreated) <==> answer is Ok),
        turn.at() == TurnStage::Recreating && turn.creation_leads(answer, created, second) ==> (
        second is Pause <==> answer is Err && answer->Err_0.code == Some(409u16)),
{
}

/// The work before the Job decides whether there is one: where it fails the node is refused,
/// and only where it is done is the Job created.
pub proof fn law_failed_preparation_gets_no_job(
    turn: Turn,
    asked: Ask,
    work: NodeWork,
    after: Turn,
    ask: TurnAsk,
)
    requires
        turn.work_leads(asked, work, after, ask),
    ensures
        ask is CreateJob <==> asked is Done,
        ask is Refuse <==> asked is Fail,
        asked matches Ask::Fail(why) ==> (ask matches TurnAsk::Refuse { reason, blame } && reason@
            == why@ && blame == Blame::Fresh),
{
}

/// A node that could not be read again gets no Job, and the failure is held against the node
/// that was selected.
pub proof fn law_an_unread_node_gets_no_job(
    turn: Turn,
    error: ApiError,
    now: u64,
    after: Turn,
    ask: TurnAsk,
)
    requires
        turn.reread_leads(Err(error), now, after, ask),
    ensures
        ask matches TurnAsk::Refuse { blame, .. } && blame == Blame::Selected,
        after.at() == TurnStage::Over,
{
}

/// A node that nothing speaks against has its work started.
pub proof fn law_a_fit_node_is_worked_on(
    turn: Turn,
    fresh: Node,
    still: bool,
    now: u64,
    after: Turn,
    ask: TurnAsk,
)
    requires
        turn.vetting_leads(fresh, still, now, after, ask),
        still != turn.of().args.removed_node_cleanup,
        fresh.name is Some,
        turn.of().args.ignore_node_taints || node_filter::admits(
            objects::taint_models(fresh.taints),
            turn.of().admission,
        ),
        turn.of().args.require_node_runtime_version ==> nodes::runtime_version_of(fresh) is Some,
        turn.of().args.require_node_machine_id ==> nodes::machine_id_of(fresh) is Some,
    ensures
        ask is Work,
        after.at() == TurnStage::Working,
        after.reread_node() == Some(fresh),
{
}

} // verus!
