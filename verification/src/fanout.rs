//! The rollout itself: at most so many nodes are worked on at once, each is dispatched to
//! once, and what became of each is kept until the end.
//!
//! The apiserver, the clock and the tasks are the caller's. It does what it is told to, and
//! says what came of it.

use crate::job;
use crate::job::JobOutcome;
use crate::ledger;
use crate::ledger::{FlightModel, Ledger};
use crate::objects::{ApiError, JobRecord, Node};
use crate::settle;
use crate::summary;
use crate::summary::{NodeFailure, Tally};
use crate::text;
use vstd::prelude::*;
use vstd::string::*;

verus! {

/// A GET that keeps failing - RBAC changed under us, say - would otherwise be polled
/// forever and the run would end only when something killed it, with no result reported
/// for any node. Seconds.
pub const JOB_READ_ERROR_BUDGET_SECS: u64 = 300;

/// Bounds a single status read, so one slow apiserver request cannot hold every other node
/// behind it. Seconds.
pub const JOB_GET_TIMEOUT_SECS: u64 = 15;

/// How long a Job may go without its pod running before the run says what it is waiting
/// on. Such a Job does not fail until its deadline expires, which is an hour of a rollout
/// looking busy on the usual settings. Seconds.
pub const WAITING_REPORT_AFTER_SECS: u64 = 120;

/// And how often afterwards. The reason is re-read, so a node that moves from
/// unschedulable to pulling says so. Seconds.
pub const WAITING_REPORT_EVERY_SECS: u64 = 300;

/// A node whose Job was created.
#[derive(Debug)]
struct Flight {
    at: usize,
    job: String,
    dispatched_at: u64,
    unreadable_since: Option<u64>,
    asked_at: Option<u64>,
    last_seen: Option<String>,
}

/// A moment that may not have come.
spec fn moment(at: Option<u64>) -> Option<int> {
    match at {
        Some(at) => Some(at as int),
        None => None,
    }
}

impl View for Flight {
    type V = FlightModel;

    closed spec fn view(&self) -> FlightModel {
        FlightModel {
            at: self.at as int,
            job: self.job@,
            dispatched_at: self.dispatched_at as int,
            unreadable_since: moment(self.unreadable_since),
            asked_at: moment(self.asked_at),
            last_seen: text::opt_text(self.last_seen),
        }
    }
}

/// What came back for a Job that is in flight.
#[derive(Debug)]
pub enum JobRead {
    Found(JobRecord),
    Refused(ApiError),
    TimedOut,
}

/// What to do about a Job that was read.
#[derive(Debug)]
pub enum PollStep {
    /// Nothing: no Job of this name is in flight.
    NotInFlight,
    /// Nothing yet: it could not be read, and may be later.
    Unread,
    /// Nothing yet: it is running.
    Running,
    /// Ask what it waits for: it has been going this long without running, and was not
    /// asked lately.
    Stalled { at: usize, waited_secs: u64 },
    /// Find out why it failed, before its TTL takes the pod away.
    Diagnose { at: usize, last_seen: Option<String> },
    /// Start the work after its success, on the node of this UID.
    Finish { at: usize, uid: String },
    /// Report that its node failed.
    Failed { at: usize, reason: String },
}

/// What to do next about the rollout.
#[derive(Debug, Clone, Copy, PartialEq, Eq, Structural)]
pub enum Move {
    /// Take the next node off the queue.
    Dispatch,
    /// Settle the node in hand first.
    Settle,
    /// Read the Jobs in flight after a while.
    Poll,
    /// Nothing to poll for, so wait on what is finishing.
    Join,
    /// Nothing more: the rollout is over.
    Over,
}

/// What is said of a node whose Job is gone. Waiting for a Job that no longer exists never
/// ends, so the node fails and a later run retries it.
pub open spec fn gone_text(job: Seq<char>) -> Seq<char> {
    "its job "@ + job + " no longer exists, so its result cannot be established"@
}

/// What is said of nodes that no Job could be dispatched to, for want of a name.
pub open spec fn nameless_text(count: nat) -> Seq<char> {
    text::decimal(count) + " selected node(s) have no name, so no Job could be dispatched to them"@
}

/// What is said of a node whose Job could not be read for too long.
pub open spec fn unreadable_text(job: Seq<char>, secs: nat, message: Seq<char>) -> Seq<char> {
    "its job "@ + job + " has been unreadable for "@ + text::decimal(secs) + "s ("@ + message
        + "), so its result cannot be established"@
}

/// What is said of a node whose Job did not answer for too long.
pub open spec fn silent_text(job: Seq<char>, secs: nat) -> Seq<char> {
    "its job "@ + job + " has been unreadable for "@ + text::decimal(secs)
        + "s because its GET requests keep timing out after "@ + text::decimal(
        JOB_GET_TIMEOUT_SECS as nat,
    ) + "s, so its result cannot be established"@
}

/// What is said of a node that the run no longer knows the UID of.
pub open spec fn uid_gone_text() -> Seq<char> {
    "the selected Node UID is gone from dispatcher state"@
}

/// Whether a Job has been getting nowhere for so long that it is asked what it waits for.
pub open spec fn is_stalled(flight: FlightModel, now: int) -> bool {
    &&& settle::secs_between(flight.dispatched_at, now) >= WAITING_REPORT_AFTER_SECS
    &&& match flight.asked_at {
        Some(last) => settle::secs_between(last, now) >= WAITING_REPORT_EVERY_SECS,
        None => true,
    }
}

/// Since when a Job has not been readable.
pub open spec fn unread_since(flight: FlightModel, now: int) -> int {
    match flight.unreadable_since {
        Some(since) => since,
        None => now,
    }
}

/// What is known of a Job that was read.
pub open spec fn read_flight(flight: FlightModel) -> FlightModel {
    FlightModel { unreadable_since: None, ..flight }
}

/// A Job has been unreadable for too long.
pub open spec fn out_of_budget(flight: FlightModel, now: int) -> bool {
    settle::secs_between(unread_since(flight, now), now) >= JOB_READ_ERROR_BUDGET_SECS
}

/// Whether a step, and the account after it, are what a read calls for.
pub open spec fn follows(
    l: Ledger,
    nodes: Seq<Node>,
    job: Seq<char>,
    read: JobRead,
    now: int,
    step: PollStep,
    after: Ledger,
) -> bool {
    let k = ledger::flight_of(l.flights, job);
    let flight = l.flights[k];
    let secs = settle::secs_between(unread_since(flight, now), now) as nat;
    let known = read_flight(flight);
    if k >= l.flights.len() {
        step is NotInFlight && after == l
    } else {
        match read {
            JobRead::Refused(error) => if error.code == Some(404u16) {
                &&& step matches PollStep::Failed { at, reason } && at == flight.at && reason@
                    == gone_text(job)
                &&& after == ledger::flight_failed(l, k, gone_text(job))
            } else if out_of_budget(flight, now) {
                &&& step matches PollStep::Failed { at, reason } && at == flight.at && reason@
                    == unreadable_text(job, secs, error.message@)
                &&& after == ledger::flight_failed(l, k, unreadable_text(job, secs, error.message@))
            } else {
                step is Unread && after == l
            },
            JobRead::TimedOut => if out_of_budget(flight, now) {
                &&& step matches PollStep::Failed { at, reason } && at == flight.at && reason@
                    == silent_text(job, secs)
                &&& after == ledger::flight_failed(l, k, silent_text(job, secs))
            } else {
                step is Unread && after == l
            },
            JobRead::Found(found) => match job::outcome_of(found) {
                JobOutcome::Succeeded => match nodes[flight.at].uid {
                    Some(expected) => {
                        &&& step matches PollStep::Finish { at, uid } && at == flight.at && uid@
                            == expected@
                        &&& after == ledger::flight_finishing(l, k)
                    },
                    None => {
                        &&& step matches PollStep::Failed { at, reason } && at == flight.at
                            && reason@ == uid_gone_text()
                        &&& after == ledger::flight_failed(l, k, uid_gone_text())
                    },
                },
                JobOutcome::Failed => {
                    &&& step matches PollStep::Diagnose { at, last_seen } && at == flight.at
                        && text::opt_text(last_seen) == flight.last_seen
                    &&& after == ledger::updated(l, k, known)
                },
                JobOutcome::Running => if is_stalled(flight, now) {
                    &&& step matches PollStep::Stalled { at, waited_secs } && at == flight.at
                        && waited_secs == settle::secs_between(flight.dispatched_at, now)
                    &&& after == ledger::updated(
                        l,
                        k,
                        FlightModel { asked_at: Some(now), ..known },
                    )
                } else {
                    step is Running && after == ledger::updated(l, k, known)
                },
            },
        }
    }
}

/// A Job that cannot be read does not hold the run up for ever: once it has been
/// unreadable for as long as is allowed, its node fails, whatever came back.
pub proof fn law_an_unreadable_job_fails_its_node(
    l: Ledger,
    nodes: Seq<Node>,
    job: Seq<char>,
    read: JobRead,
    now: int,
    step: PollStep,
    after: Ledger,
)
    requires
        follows(l, nodes, job, read, now, step, after),
        0 <= ledger::flight_of(l.flights, job) < l.flights.len(),
        !(read is Found),
        l.flights[ledger::flight_of(l.flights, job)].unreadable_since matches Some(since)
            && settle::secs_between(since, now) >= JOB_READ_ERROR_BUDGET_SECS,
    ensures
        step is Failed,
        after.flights.len() == l.flights.len() - 1,
{
}

/// A Job is asked what it waits for only once it has gone nowhere for a while, and then
/// only so often.
pub proof fn law_stalls_are_reported_sparingly(flight: FlightModel, now: int)
    requires
        is_stalled(flight, now),
    ensures
        now - flight.dispatched_at >= WAITING_REPORT_AFTER_SECS * settle::NANOS,
        flight.asked_at matches Some(last) ==> now - last >= WAITING_REPORT_EVERY_SECS
            * settle::NANOS,
{
}

/// What is said of a node whose Job failed.
pub open spec fn job_failed_text(job: Seq<char>, why: Seq<char>) -> Seq<char> {
    "its job "@ + job + " failed: "@ + why
}

/// What is said of a node whose Job is getting nowhere.
pub open spec fn stalled_text(job: Seq<char>, waited_secs: nat, detail: Seq<char>) -> Seq<char> {
    "its job "@ + job + " has been going "@ + text::decimal(waited_secs) + "s without running: "@
        + detail
}

/// What is said of a node whose Job succeeded but whose work afterwards did not.
pub open spec fn unfinished_text(why: Seq<char>) -> Seq<char> {
    "its Job finished but "@ + why
}

/// Where a name first stands among the flights is one of them, or just past the last.
proof fn lemma_flight_of(flights: Seq<FlightModel>, job: Seq<char>)
    ensures
        0 <= ledger::flight_of(flights, job) <= flights.len(),
        ledger::flight_of(flights, job) < flights.len() ==> flights[ledger::flight_of(
            flights,
            job,
        )].job == job,
    decreases flights.len(),
{
    if flights.len() > 0 && flights[0].job != job {
        lemma_flight_of(flights.drop_first(), job);
    }
}

/// Where a node first stands among the finishing ones is one of them, or just past the
/// last.
proof fn lemma_finishing_of(finishing: Seq<int>, at: int)
    ensures
        0 <= ledger::finishing_of(finishing, at) <= finishing.len(),
        ledger::finishing_of(finishing, at) < finishing.len() ==> finishing[ledger::finishing_of(
            finishing,
            at,
        )] == at,
    decreases finishing.len(),
{
    if finishing.len() > 0 && finishing[0] != at {
        lemma_finishing_of(finishing.drop_first(), at);
    }
}

/// The views of the Jobs in flight.
spec fn flight_views(flights: Seq<Flight>) -> Seq<FlightModel> {
    flights.map_values(|f: Flight| f@)
}

/// A list of places.
spec fn places(list: Seq<usize>) -> Seq<int> {
    list.map_values(|at: usize| at as int)
}

/// A list of places with the reasons they failed for.
spec fn falls(list: Seq<(usize, String)>) -> Seq<(int, Seq<char>)> {
    list.map_values(|f: (usize, String)| (f.0 as int, f.1@))
}

/// A rollout over a selection of nodes.
#[derive(Debug)]
pub struct FanOut {
    nodes: Vec<Node>,
    slots: usize,
    next: usize,
    in_hand: Option<usize>,
    flights: Vec<Flight>,
    finishing: Vec<usize>,
    succeeded: Vec<usize>,
    skipped: Vec<usize>,
    failed: Vec<(usize, String)>,
}

impl FanOut {
    /// The nodes that were selected.
    pub closed spec fn selected(self) -> Seq<Node> {
        self.nodes@
    }

    /// Where each of them stands.
    pub closed spec fn account(self) -> Ledger {
        Ledger {
            total: self.nodes@.len() as int,
            slots: self.slots as int,
            next: self.next as int,
            in_hand: match self.in_hand {
                Some(at) => Some(at as int),
                None => None,
            },
            flights: flight_views(self.flights@),
            finishing: places(self.finishing@),
            succeeded: places(self.succeeded@),
            skipped: places(self.skipped@),
            failed: falls(self.failed@),
        }
    }

    /// The account adds up.
    pub open spec fn wf(self) -> bool {
        ledger::adds_up(self.account()) && self.account().total == self.selected().len()
    }

    /// A rollout that has not started.
    pub fn new(nodes: Vec<Node>, slots: usize) -> (r: Self)
        ensures
            r.wf(),
            r.selected() == nodes@,
            r.account() == ledger::opened(nodes@.len() as int, slots as int),
    {
        let r = FanOut {
            nodes,
            slots,
            next: 0,
            in_hand: None,
            flights: Vec::new(),
            finishing: Vec::new(),
            succeeded: Vec::new(),
            skipped: Vec::new(),
            failed: Vec::new(),
        };
        proof {
            let l = r.account();
            assert(l.flights =~= Seq::empty());
            assert(l.finishing =~= Seq::empty());
            assert(l.succeeded =~= Seq::empty());
            assert(l.skipped =~= Seq::empty());
            assert(l.failed =~= Seq::empty());
            ledger::law_a_new_account_adds_up(r.nodes@.len() as int, slots as int);
        }
        r
    }

    /// One of the nodes that were selected.
    pub fn node(&self, at: usize) -> (r: Option<&Node>)
        ensures
            match r {
                Some(node) => at < self.selected().len() && *node == self.selected()[at as int],
                None => at >= self.selected().len(),
            },
    {
        if at < self.nodes.len() {
            Some(&self.nodes[at])
        } else {
            None
        }
    }

    /// What to do next.
    pub fn next_move(&self) -> (r: Move)
        requires
            self.wf(),
        ensures
            r == move_for(self.account()),
            r == Move::Over <==> ledger::is_over(self.account()),
    {
        if self.in_hand.is_some() {
            Move::Settle
        } else if self.flights.len() < self.slots && self.finishing.len() < self.slots
            - self.flights.len() && self.next < self.nodes.len() {
            Move::Dispatch
        } else if self.flights.len() > 0 {
            Move::Poll
        } else if self.finishing.len() > 0 {
            Move::Join
        } else {
            Move::Over
        }
    }

    /// Takes the next node off the queue, while a slot is free and nothing is in hand.
    pub fn take(&mut self) -> (r: Option<usize>)
        requires
            old(self).wf(),
        ensures
            final(self).wf(),
            final(self).selected() == old(self).selected(),
            if ledger::can_take(old(self).account()) {
                &&& r matches Some(at) && at == old(self).account().next && at
                    < old(self).selected().len()
                &&& final(self).account() == ledger::taken(old(self).account())
            } else {
                r is None && final(self).account() == old(self).account()
            },
    {
        match self.next_move() {
            Move::Dispatch => {
                proof {
                    ledger::law_taking_keeps_the_account(self.account());
                }
                let at: usize = self.next;
                assert(at < self.nodes.len());
                self.in_hand = Some(at);
                self.next = at + 1;
                Some(at)
            },
            _ => None,
        }
    }

    /// The node in hand has no name: nothing is done about it.
    pub fn pass_over(&mut self)
        requires
            old(self).wf(),
        ensures
            final(self).wf(),
            final(self).selected() == old(self).selected(),
            final(self).account() == ledger::passed_over(old(self).account()),
    {
        proof {
            ledger::law_the_hand_is_settled_once(self.account(), Seq::empty(), Seq::empty(), 0);
        }
        if let Some(at) = self.in_hand {
            let ghost before = self.skipped@;
            self.in_hand = None;
            self.skipped.push(at);
            assert(places(self.skipped@) =~= places(before).push(at as int));
        }
    }

    /// The node in hand is left as it is: it re-entered the selection before it could be
    /// cleaned.
    pub fn leave_alone(&mut self)
        requires
            old(self).wf(),
        ensures
            final(self).wf(),
            final(self).selected() == old(self).selected(),
            final(self).account() == ledger::left_alone(old(self).account()),
    {
        proof {
            ledger::law_the_hand_is_settled_once(self.account(), Seq::empty(), Seq::empty(), 0);
        }
        if let Some(at) = self.in_hand {
            let ghost before = self.succeeded@;
            self.in_hand = None;
            self.succeeded.push(at);
            assert(places(self.succeeded@) =~= places(before).push(at as int));
        }
    }

    /// The node in hand cannot be dispatched to, and why.
    pub fn refuse(&mut self, reason: String)
        requires
            old(self).wf(),
        ensures
            final(self).wf(),
            final(self).selected() == old(self).selected(),
            final(self).account() == ledger::refused(old(self).account(), reason@),
    {
        proof {
            ledger::law_the_hand_is_settled_once(self.account(), reason@, Seq::empty(), 0);
        }
        if let Some(at) = self.in_hand {
            let ghost before = self.failed@;
            self.in_hand = None;
            self.failed.push((at, reason));
            assert(falls(self.failed@) =~= falls(before).push((at as int, reason@)));
        }
    }

    /// The Job of the node in hand was created, adopted or recreated.
    pub fn dispatched(&mut self, job: String, now: u64)
        requires
            old(self).wf(),
        ensures
            final(self).wf(),
            final(self).selected() == old(self).selected(),
            final(self).account() == ledger::dispatched(old(self).account(), job@, now as int),
    {
        proof {
            ledger::law_the_hand_is_settled_once(self.account(), Seq::empty(), job@, now as int);
        }
        if let Some(at) = self.in_hand {
            let ghost before = self.flights@;
            self.in_hand = None;
            let flight = Flight {
                at,
                job,
                dispatched_at: now,
                unreadable_since: None,
                asked_at: None,
                last_seen: None,
            };
            self.flights.push(flight);
            assert(flight_views(self.flights@) =~= flight_views(before).push(flight@));
        }
    }

    /// The Jobs to read now: every one in flight.
    pub fn begin_poll(&mut self, now: u64) -> (r: Vec<String>)
        requires
            old(self).wf(),
        ensures
            final(self).wf(),
            final(self).selected() == old(self).selected(),
            final(self).account() == ledger::polling(old(self).account(), now as int),
            text::texts(r@) == old(self).account().flights.map_values(|f: FlightModel| f.job),
    {
        let ghost start = self.account();
        let ghost f = |f: FlightModel| ledger::unread_from(f, now as int);
        let mut jobs: Vec<String> = Vec::new();
        let mut pending: Vec<Flight> = Vec::new();
        std::mem::swap(&mut pending, &mut self.flights);
        let ghost given = pending@;
        for flight in it: pending
            invariant
                it.seq() == given,
                f == (|f: FlightModel| ledger::unread_from(f, now as int)),
                jobs@.len() == it.index(),
                self.flights@.len() == it.index(),
                forall|j: int| 0 <= j < it.index() ==> (#[trigger] jobs@[j])@ == given[j]@.job,
                forall|j: int|
                    0 <= j < it.index() ==> (#[trigger] self.flights@[j])@ == f(given[j]@),
                self.nodes@ == old(self).nodes@,
                self.slots == old(self).slots,
                self.next == old(self).next,
                self.in_hand == old(self).in_hand,
                self.finishing == old(self).finishing,
                self.succeeded == old(self).succeeded,
                self.skipped == old(self).skipped,
                self.failed == old(self).failed,
        {
            jobs.push(flight.job.clone());
            let unreadable_since: Option<u64> = match flight.unreadable_since {
                Some(since) => Some(since),
                None => Some(now),
            };
            self.flights.push(
                Flight {
                    at: flight.at,
                    job: flight.job,
                    dispatched_at: flight.dispatched_at,
                    unreadable_since,
                    asked_at: flight.asked_at,
                    last_seen: flight.last_seen,
                },
            );
        }
        proof {
            assert(flight_views(self.flights@) =~= start.flights.map_values(f));
            assert(text::texts(jobs@) =~= start.flights.map_values(|f: FlightModel| f.job));
            if start.flights.len() > 0 {
                ledger::law_looking_keeps_the_account(start, now as int, 0, start.flights[0]);
            } else {
                ledger::law_looking_keeps_the_account(
                    start,
                    now as int,
                    0,
                    FlightModel {
                        at: 0,
                        job: Seq::empty(),
                        dispatched_at: 0,
                        unreadable_since: None,
                        asked_at: None,
                        last_seen: None,
                    },
                );
            }
        }
        jobs
    }

    /// Where the Job of a name is in flight.
    fn find(&self, job: &str) -> (r: usize)
        ensures
            r == ledger::flight_of(self.account().flights, job@),
            r <= self.flights@.len(),
    {
        let ghost all = flight_views(self.flights@);
        let mut i: usize = 0;
        assert(all.skip(0) =~= all);
        while i < self.flights.len() && !text::same(self.flights[i].job.as_str(), job)
            invariant
                i <= self.flights@.len(),
                all == flight_views(self.flights@),
                ledger::flight_of(all, job@) == i + ledger::flight_of(all.skip(i as int), job@),
            decreases self.flights@.len() - i,
        {
            assert(all.skip(i as int).drop_first() =~= all.skip(i + 1));
            assert(all.skip(i as int)[0] == self.flights@[i as int]@);
            i = i + 1;
        }
        proof {
            if i < self.flights@.len() {
                assert(all.skip(i as int)[0] == self.flights@[i as int]@);
            }
        }
        i
    }

    /// Takes the Job at a place out of flight.
    fn land(&mut self, k: usize) -> (r: Flight)
        requires
            k < old(self).flights@.len(),
        ensures
            r == old(self).flights@[k as int],
            final(self).flights@ == old(self).flights@.remove(k as int),
            final(self).nodes == old(self).nodes,
            final(self).slots == old(self).slots,
            final(self).next == old(self).next,
            final(self).in_hand == old(self).in_hand,
            final(self).finishing == old(self).finishing,
            final(self).succeeded == old(self).succeeded,
            final(self).skipped == old(self).skipped,
            final(self).failed == old(self).failed,
    {
        self.flights.remove(k)
    }

    /// Fails the node of a Job in flight.
    fn crash(&mut self, k: usize, reason: String) -> (r: PollStep)
        requires
            old(self).wf(),
            k < old(self).account().flights.len(),
        ensures
            final(self).wf(),
            final(self).selected() == old(self).selected(),
            r matches PollStep::Failed { at, reason: why } && at
                == old(self).account().flights[k as int].at && why@ == reason@,
            final(self).account() == ledger::flight_failed(
                old(self).account(),
                k as int,
                reason@,
            ),
    {
        let ghost start = self.account();
        proof {
            ledger::law_a_landing_keeps_the_account(start, k as int, reason@);
        }
        let flight: Flight = self.land(k);
        let at: usize = flight.at;
        let ghost before = self.failed@;
        self.failed.push((at, reason.clone()));
        proof {
            assert(start.flights[k as int] == flight@);
            assert(falls(self.failed@) =~= falls(before).push((at as int, reason@)));
            assert(flight_views(self.flights@) =~= start.flights.remove(k as int));
        }
        PollStep::Failed { at, reason }
    }

    /// Puts back what is known of a Job in flight.
    fn put_back(&mut self, k: usize, flight: Flight)
        requires
            k <= old(self).flights@.len(),
        ensures
            final(self).flights@ == old(self).flights@.insert(k as int, flight),
            final(self).nodes == old(self).nodes,
            final(self).slots == old(self).slots,
            final(self).next == old(self).next,
            final(self).in_hand == old(self).in_hand,
            final(self).finishing == old(self).finishing,
            final(self).succeeded == old(self).succeeded,
            final(self).skipped == old(self).skipped,
            final(self).failed == old(self).failed,
    {
        self.flights.insert(k, flight);
    }

    /// Takes what came back for a Job in flight.
    pub fn job_read(&mut self, job: &str, read: JobRead, now: u64) -> (r: PollStep)
        requires
            old(self).wf(),
        ensures
            final(self).wf(),
            final(self).selected() == old(self).selected(),
            follows(
                old(self).account(),
                old(self).selected(),
                job@,
                read,
                now as int,
                r,
                final(self).account(),
            ),
    {
        let ghost start = self.account();
        let k: usize = self.find(job);
        if k >= self.flights.len() {
            return PollStep::NotInFlight;
        }
        proof {
            lemma_flight_of(start.flights, job@);
            assert(start.flights[k as int] == self.flights@[k as int]@);
            ledger::lemma_flights_stand_in_the_selection(start, k as int);
        }
        let since: u64 = match self.flights[k].unreadable_since {
            Some(since) => since,
            None => now,
        };
        let secs: u64 = settle::elapsed_secs(since, now);
        let found: JobRecord = match read {
            JobRead::Found(found) => found,
            JobRead::Refused(error) => {
                let gone: bool = match error.code {
                    Some(code) => code == 404,
                    None => false,
                };
                if gone {
                    return self.crash(
                        k,
                        "its job ".to_string().concat(job).concat(
                            " no longer exists, so its result cannot be established",
                        ),
                    );
                }
                if secs < JOB_READ_ERROR_BUDGET_SECS {
                    return PollStep::Unread;
                }
                return self.crash(
                    k,
                    "its job ".to_string().concat(job).concat(" has been unreadable for ").concat(
                        text::number(secs).as_str(),
                    ).concat("s (").concat(error.message.as_str()).concat(
                        "), so its result cannot be established",
                    ),
                );
            },
            JobRead::TimedOut => {
                if secs < JOB_READ_ERROR_BUDGET_SECS {
                    return PollStep::Unread;
                }
                return self.crash(
                    k,
                    "its job ".to_string().concat(job).concat(" has been unreadable for ").concat(
                        text::number(secs).as_str(),
                    ).concat("s because its GET requests keep timing out after ").concat(
                        text::number(JOB_GET_TIMEOUT_SECS).as_str(),
                    ).concat("s, so its result cannot be established"),
                );
            },
        };
        match job::interpret_status(&found) {
            JobOutcome::Succeeded => {
                let at: usize = self.flights[k].at;
                let uid: String = match &self.nodes[at].uid {
                    Some(uid) => uid.clone(),
                    None => {
                        return self.crash(
                            k,
                            "the selected Node UID is gone from dispatcher state".to_string(),
                        );
                    },
                };
                proof {
                    ledger::law_a_landing_keeps_the_account(start, k as int, Seq::empty());
                }
                let ghost before = self.finishing@;
                self.land(k);
                self.finishing.push(at);
                proof {
                    assert(flight_views(self.flights@) =~= start.flights.remove(k as int));
                    assert(places(self.finishing@) =~= places(before).push(at as int));
                }
                PollStep::Finish { at, uid }
            },
            JobOutcome::Failed => {
                let flight: Flight = self.land(k);
                let at: usize = flight.at;
                let last_seen: Option<String> = text::copy_opt(&flight.last_seen);
                let known = Flight { unreadable_since: None, ..flight };
                self.put_back(k, known);
                proof {
                    assert(flight_views(self.flights@) =~= start.flights.update(k as int, known@));
                    ledger::law_looking_keeps_the_account(start, 0, k as int, known@);
                }
                PollStep::Diagnose { at, last_seen }
            },
            JobOutcome::Running => {
                let flight: Flight = self.land(k);
                let at: usize = flight.at;
                let waited_secs: u64 = settle::elapsed_secs(flight.dispatched_at, now);
                let lately: bool = match flight.asked_at {
                    Some(last) => settle::elapsed_secs(last, now) < WAITING_REPORT_EVERY_SECS,
                    None => false,
                };
                let stalled: bool = waited_secs >= WAITING_REPORT_AFTER_SECS && !lately;
                // Recorded whatever the answer: asking costs a pod LIST, and a running Job
                // answers nothing to every poll.
                let asked_at: Option<u64> = if stalled {
                    Some(now)
                } else {
                    flight.asked_at
                };
                let known = Flight { unreadable_since: None, asked_at, ..flight };
                self.put_back(k, known);
                proof {
                    assert(flight_views(self.flights@) =~= start.flights.update(k as int, known@));
                    ledger::law_looking_keeps_the_account(start, 0, k as int, known@);
                }
                if stalled {
                    PollStep::Stalled { at, waited_secs }
                } else {
                    PollStep::Running
                }
            },
        }
    }

    /// Fails the node of a Job that failed, with what was found out about it.
    pub fn job_failed(&mut self, job: &str, why: &str) -> (r: PollStep)
        requires
            old(self).wf(),
        ensures
            final(self).wf(),
            final(self).selected() == old(self).selected(),
            ({
                let l = old(self).account();
                let k = ledger::flight_of(l.flights, job@);
                if k < l.flights.len() {
                    &&& r matches PollStep::Failed { at, reason } && at == l.flights[k].at && reason@
                        == job_failed_text(job@, why@)
                    &&& final(self).account() == ledger::flight_failed(
                        l,
                        k,
                        job_failed_text(job@, why@),
                    )
                } else {
                    r is NotInFlight && final(self).account() == l
                }
            }),
    {
        let k: usize = self.find(job);
        if k >= self.flights.len() {
            return PollStep::NotInFlight;
        }
        self.crash(k, "its job ".to_string().concat(job).concat(" failed: ").concat(why))
    }

    /// Keeps what a Job that is getting nowhere waits for, and says it.
    pub fn waiting_for(&mut self, job: &str, waited_secs: u64, detail: String) -> (r: Option<String>)
        requires
            old(self).wf(),
        ensures
            final(self).wf(),
            final(self).selected() == old(self).selected(),
            ({
                let l = old(self).account();
                let k = ledger::flight_of(l.flights, job@);
                if k < l.flights.len() {
                    &&& text::opt_text(r) == Some(
                        stalled_text(job@, waited_secs as nat, detail@),
                    )
                    &&& final(self).account() == ledger::updated(
                        l,
                        k,
                        FlightModel { last_seen: Some(detail@), ..l.flights[k] },
                    )
                } else {
                    r is None && final(self).account() == l
                }
            }),
    {
        let ghost start = self.account();
        let k: usize = self.find(job);
        if k >= self.flights.len() {
            return None;
        }
        proof {
            lemma_flight_of(start.flights, job@);
        }
        let said: String = "its job ".to_string().concat(job).concat(" has been going ").concat(
            text::number(waited_secs).as_str(),
        ).concat("s without running: ").concat(detail.as_str());
        let flight: Flight = self.land(k);
        let known = Flight { last_seen: Some(detail), ..flight };
        self.put_back(k, known);
        proof {
            assert(flight_views(self.flights@) =~= start.flights.update(k as int, known@));
            ledger::law_looking_keeps_the_account(start, 0, k as int, known@);
        }
        Some(said)
    }

    /// Takes the end of the work after a Job succeeded. A node whose Job passed but whose
    /// post-success work did not is a failed node: the work is only complete once the node
    /// is labelled. Says why the node failed, where it did.
    pub fn finished(&mut self, at: usize, outcome: Result<(), String>) -> (r: Option<String>)
        requires
            old(self).wf(),
        ensures
            final(self).wf(),
            final(self).selected() == old(self).selected(),
            ({
                let l = old(self).account();
                let k = ledger::finishing_of(l.finishing, at as int);
                if k >= l.finishing.len() {
                    r is None && final(self).account() == l
                } else {
                    match outcome {
                        Ok(_) => r is None && final(self).account() == ledger::finished_well(l, k),
                        Err(why) => {
                            &&& text::opt_text(r) == Some(unfinished_text(why@))
                            &&& final(self).account() == ledger::finished_badly(
                                l,
                                k,
                                unfinished_text(why@),
                            )
                        },
                    }
                }
            }),
    {
        let ghost start = self.account();
        let ghost all = places(self.finishing@);
        let mut k: usize = 0;
        assert(all.skip(0) =~= all);
        while k < self.finishing.len() && self.finishing[k] != at
            invariant
                k <= self.finishing@.len(),
                all == places(self.finishing@),
                *self == *old(self),
                ledger::finishing_of(all, at as int) == k + ledger::finishing_of(
                    all.skip(k as int),
                    at as int,
                ),
            decreases self.finishing@.len() - k,
        {
            assert(all.skip(k as int).drop_first() =~= all.skip(k + 1));
            k = k + 1;
        }
        if k >= self.finishing.len() {
            return None;
        }
        let said: Option<String> = match &outcome {
            Ok(_) => None,
            Err(why) => Some("its Job finished but ".to_string().concat(why.as_str())),
        };
        proof {
            lemma_finishing_of(all, at as int);
            ledger::law_finishing_keeps_the_account(
                start,
                k as int,
                match text::opt_text(said) {
                    Some(why) => why,
                    None => Seq::empty(),
                },
            );
        }
        self.finishing.remove(k);
        assert(places(self.finishing@) =~= start.finishing.remove(k as int));
        match &said {
            None => {
                let ghost before = self.succeeded@;
                self.succeeded.push(at);
                assert(places(self.succeeded@) =~= places(before).push(at as int));
            },
            Some(why) => {
                let ghost before = self.failed@;
                self.failed.push((at, why.clone()));
                assert(falls(self.failed@) =~= falls(before).push((at as int, why@)));
            },
        }
        said
    }

    /// How the rollout stands.
    pub fn tally(&self) -> (r: Tally)
        requires
            self.wf(),
        ensures
            r.succeeded == self.account().succeeded.len(),
            r.failed == self.account().failed.len(),
            r.in_flight == self.account().flights.len(),
            r.finishing == self.account().finishing.len(),
            r.queued == self.account().total - self.account().next,
    {
        Tally {
            succeeded: self.succeeded.len(),
            failed: self.failed.len(),
            in_flight: self.flights.len(),
            finishing: self.finishing.len(),
            queued: self.nodes.len() - self.next,
        }
    }

    /// The nodes that failed and why, in the order they did.
    pub fn failures(&self) -> (r: Vec<NodeFailure>)
        requires
            self.wf(),
        ensures
            r@.len() == self.account().failed.len(),
            forall|i: int|
                0 <= i < r@.len() ==> {
                    &&& (#[trigger] r@[i]).node@ == summary::name_or_unknown(
                        self.selected()[self.account().failed[i].0],
                    )
                    &&& r@[i].reason@ == self.account().failed[i].1
                },
    {
        let mut list: Vec<NodeFailure> = Vec::new();
        let mut i: usize = 0;
        while i < self.failed.len()
            invariant
                self.wf(),
                i <= self.failed@.len(),
                list@.len() == i,
                forall|j: int|
                    0 <= j < i ==> {
                        &&& (#[trigger] list@[j]).node@ == summary::name_or_unknown(
                            self.selected()[self.account().failed[j].0],
                        )
                        &&& list@[j].reason@ == self.account().failed[j].1
                    },
            decreases self.failed@.len() - i,
        {
            proof {
                ledger::lemma_failures_stand_in_the_selection(self.account(), i as int);
                assert(self.account().failed[i as int].0 == self.failed@[i as int].0);
            }
            let node: String = match &self.nodes[self.failed[i].0].name {
                Some(name) => name.clone(),
                None => "<unknown>".to_string(),
            };
            list.push(NodeFailure { node, reason: self.failed[i].1.clone() });
            i = i + 1;
        }
        list
    }

    /// How the rollout ended: how many nodes it succeeded on, or which it failed on and
    /// what stopped each. One that passed a node over did not succeed either: no Job was
    /// dispatched to that node.
    pub fn result(&self, namespace: &str, owner_label: &str, owner_value: &str) -> (r: Result<
        usize,
        String,
    >)
        requires
            self.wf(),
        ensures
            match r {
                Ok(count) => self.account().failed.len() == 0 && self.account().skipped.len() == 0
                    && count == self.account().succeeded.len(),
                Err(why) => if self.account().failed.len() == 0 {
                    self.account().skipped.len() > 0 && why@ == nameless_text(
                        self.account().skipped.len(),
                    )
                } else {
                    exists|list: Seq<NodeFailure>|
                    {
                        &&& list.len() == self.account().failed.len()
                        &&& forall|i: int|
                            0 <= i < list.len() ==> {
                                &&& (#[trigger] list[i]).node@ == summary::name_or_unknown(
                                    self.selected()[self.account().failed[i].0],
                                )
                                &&& list[i].reason@ == self.account().failed[i].1
                            }
                        &&& why@ == #[trigger] summary::summary_text(
                            list,
                            namespace@,
                            owner_label@,
                            owner_value@,
                        )
                    }
                },
            },
    {
        if self.failed.len() == 0 {
            if self.skipped.len() > 0 {
                return Err(
                    text::number(self.skipped.len() as u64).concat(
                        " selected node(s) have no name, so no Job could be dispatched to them",
                    ),
                );
            }
            return Ok(self.succeeded.len());
        }
        let list: Vec<NodeFailure> = self.failures();
        let ghost all = list@;
        let why: String = summary::summarize(list, namespace, owner_label, owner_value);
        assert(why@ == summary::summary_text(all, namespace@, owner_label@, owner_value@));
        Err(why)
    }
}

/// What a Job in flight that could be read comes to: one that only says that it completed
/// goes on to the work after it, one that only says that it failed is looked into, and one
/// that says neither stays in flight.
pub proof fn law_ends_are_told_apart(
    l: Ledger,
    nodes: Seq<Node>,
    job: Seq<char>,
    found: JobRecord,
    now: int,
    step: PollStep,
    after: Ledger,
    k: int,
)
    requires
        follows(l, nodes, job, JobRead::Found(found), now, step, after),
        k == ledger::flight_of(l.flights, job),
        0 <= k < l.flights.len(),
        found.conditions is Some,
    ensures
        ({
            let list = found.conditions->0@;
            let complete = exists|i: int| 0 <= i < list.len() && job::holds(#[trigger] list[i], "Complete"@);
            let failed = exists|i: int| 0 <= i < list.len() && job::holds(#[trigger] list[i], "Failed"@);
            &&& complete && !failed && nodes[l.flights[k].at].uid is Some ==> step is Finish
                && after.finishing == l.finishing.push(l.flights[k].at) && after.flights
                == l.flights.remove(k) && after.failed == l.failed
            &&& failed && !complete ==> step is Diagnose && after.flights.len() == l.flights.len()
            &&& !complete && !failed ==> (step is Running || step is Stalled)
                && after.flights.len() == l.flights.len() && after.flights[k].job == job
                && after.flights[k].unreadable_since is None
        }),
{
    job::law_a_job_has_ended_where_it_says_so(found);
    ledger::lemma_flight_has_the_job(l.flights, job);
}

/// A Job that is gone fails its node at once; one that could not be read for another reason
/// stays in flight until it has been unreadable for as long as is allowed.
pub proof fn law_a_missing_job_fails_its_node_at_once(
    l: Ledger,
    nodes: Seq<Node>,
    job: Seq<char>,
    read: JobRead,
    now: int,
    step: PollStep,
    after: Ledger,
    k: int,
)
    requires
        follows(l, nodes, job, read, now, step, after),
        k == ledger::flight_of(l.flights, job),
        0 <= k < l.flights.len(),
        !(read is Found),
    ensures
        read matches JobRead::Refused(error) && error.code == Some(404u16) ==> step is Failed,
        !(read matches JobRead::Refused(error) && error.code == Some(404u16)) && (
        l.flights[k].unreadable_since matches Some(since) ==> now - since
            < 300 * 1_000_000_000) ==> step is Unread && after == l,
        step matches PollStep::Failed { at, reason } ==> at == l.flights[k].at && after.failed
            == l.failed.push((l.flights[k].at, reason@)) && after.flights == l.flights.remove(k),
{
}

/// A Job that has gone nowhere for long enough is asked what it waits for, for the first time
/// and then again and again.
pub proof fn law_a_stalled_job_is_asked(flight: FlightModel, now: int)
    requires
        now - flight.dispatched_at >= 120 * 1_000_000_000,
        flight.asked_at matches Some(last) ==> now - last >= 300 * 1_000_000_000,
    ensures
        is_stalled(flight, now),
{
}

/// What a rollout does next.
pub open spec fn move_for(l: Ledger) -> Move {
    if l.in_hand is Some {
        Move::Settle
    } else if ledger::can_take(l) {
        Move::Dispatch
    } else if l.flights.len() > 0 {
        Move::Poll
    } else if l.finishing.len() > 0 {
        Move::Join
    } else {
        Move::Over
    }
}

/// A rollout never stands still: it settles what is in hand, fills a free slot while a node
/// is left, polls while Jobs are in flight, waits for the work after them, and is over only
/// where none of that is left.
pub proof fn law_a_rollout_never_stands_still(l: Ledger)
    ensures
        move_for(l) == Move::Settle <==> l.in_hand is Some,
        move_for(l) == Move::Dispatch <==> l.in_hand is None && l.flights.len() + l.finishing.len()
            < l.slots && l.next < l.total,
        move_for(l) == Move::Over ==> l.in_hand is None && l.flights.len() == 0
            && l.finishing.len() == 0 && (l.next >= l.total || l.slots <= 0),
        move_for(l) == Move::Poll ==> l.flights.len() > 0,
        move_for(l) == Move::Join ==> l.flights.len() == 0 && l.finishing.len() > 0,
{
}

} // verus!
