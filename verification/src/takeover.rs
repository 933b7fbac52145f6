//! What a run does about the Jobs of other runs with its name prefix: stand aside while one
//! is still working, and clear away what the ended ones left behind.

use crate::job;
use crate::job::JobOutcome;
use crate::objects;
use crate::objects::{ApiError, JobRecord, OwnerModel, OwnerReference};
use crate::owners;
use crate::selection;
use crate::text;
use vstd::prelude::*;
use vstd::string::*;

verus! {

/// What is known of the Jobs behind other runs' per-node Jobs: the UIDs that were met, and
/// the owners still to be asked about.
pub ghost struct SearchState {
    pub asked: Seq<Seq<char>>,
    pub pending: Seq<OwnerModel>,
}

/// One more per-node Job. Each owner is asked about once.
pub open spec fn noticed(state: SearchState, job: JobRecord, ours: Seq<char>) -> SearchState {
    match owners::first_job_among(objects::owner_models(job.owner_references), Some(ours)) {
        Some(other) => if state.asked.contains(other.uid) {
            state
        } else {
            SearchState {
                asked: state.asked.push(other.uid),
                pending: state.pending.push(other),
            }
        },
        None => state,
    }
}

/// A page of per-node Jobs.
pub open spec fn noticed_all(state: SearchState, jobs: Seq<JobRecord>, ours: Seq<char>) -> SearchState
    decreases jobs.len(),
{
    if jobs.len() == 0 {
        state
    } else {
        noticed(noticed_all(state, jobs.drop_last(), ours), jobs.last(), ours)
    }
}

/// No owner is asked about twice, and this run's own Job is never asked about.
pub proof fn law_each_owner_is_asked_about_once(
    state: SearchState,
    jobs: Seq<JobRecord>,
    ours: Seq<char>,
)
    requires
        state.asked.no_duplicates(),
        !state.asked.contains(ours),
    ensures
        noticed_all(state, jobs, ours).asked.no_duplicates(),
        !noticed_all(state, jobs, ours).asked.contains(ours),
    decreases jobs.len(),
{
    if jobs.len() > 0 {
        let before = noticed_all(state, jobs.drop_last(), ours);
        law_each_owner_is_asked_about_once(state, jobs.drop_last(), ours);
        let references = objects::owner_models(jobs.last().owner_references);
        lemma_found_is_another(references, ours);
        if let Some(other) = owners::first_job_among(references, Some(ours)) {
            let after = before.asked.push(other.uid);
            if !before.asked.contains(other.uid) {
                assert forall|i: int, j: int|
                    0 <= i < after.len() && 0 <= j < after.len() && i != j implies after[i]
                    != after[j] by {
                    if i == before.asked.len() {
                        assert(before.asked[j] != other.uid);
                    }
                    if j == before.asked.len() {
                        assert(before.asked[i] != other.uid);
                    }
                }
                if after.contains(ours) {
                    let k = choose|k: int| 0 <= k < after.len() && after[k] == ours;
                    if k < before.asked.len() {
                        assert(before.asked[k] == ours);
                    }
                }
            }
        }
    }
}

/// Whether an owner of this UID is still to be asked about.
pub open spec fn is_pending(pending: Seq<OwnerModel>, uid: Seq<char>) -> bool {
    exists|k: int| 0 <= k < pending.len() && (#[trigger] pending[k]).uid == uid
}

/// One more per-node Job adds its owner and forgets nothing.
proof fn lemma_noticing_adds(state: SearchState, job: JobRecord, ours: Seq<char>, uid: Seq<char>)
    ensures
        state.asked.contains(uid) ==> noticed(state, job, ours).asked.contains(uid),
        is_pending(state.pending, uid) ==> is_pending(noticed(state, job, ours).pending, uid),
        owners::first_job_among(objects::owner_models(job.owner_references), Some(ours)) matches Some(
            other,
        ) ==> {
            &&& noticed(state, job, ours).asked.contains(other.uid)
            &&& state.asked.contains(other.uid) || is_pending(
                noticed(state, job, ours).pending,
                other.uid,
            )
        },
{
    let after = noticed(state, job, ours);
    if state.asked.contains(uid) {
        let k = choose|k: int| 0 <= k < state.asked.len() && state.asked[k] == uid;
        assert(after.asked[k] == uid);
    }
    if is_pending(state.pending, uid) {
        let k = choose|k: int|
            0 <= k < state.pending.len() && (#[trigger] state.pending[k]).uid == uid;
        assert(after.pending[k].uid == uid);
    }
    if let Some(other) = owners::first_job_among(
        objects::owner_models(job.owner_references),
        Some(ours),
    ) {
        if !state.asked.contains(other.uid) {
            assert(after.asked[state.asked.len() as int] == other.uid);
            assert(after.pending[state.pending.len() as int].uid == other.uid);
        }
    }
}

/// No other run is overlooked: the Job behind every per-node Job of a page that is not
/// this run's own was met before, or is to be asked about.
pub proof fn law_every_other_owner_is_asked_about(
    state: SearchState,
    jobs: Seq<JobRecord>,
    ours: Seq<char>,
    i: int,
)
    requires
        0 <= i < jobs.len(),
    ensures
        owners::first_job_among(
            objects::owner_models(jobs[i].owner_references),
            Some(ours),
        ) matches Some(other) ==> {
            &&& noticed_all(state, jobs, ours).asked.contains(other.uid)
            &&& state.asked.contains(other.uid) || is_pending(
                noticed_all(state, jobs, ours).pending,
                other.uid,
            )
        },
    decreases jobs.len(),
{
    let before = noticed_all(state, jobs.drop_last(), ours);
    if let Some(other) = owners::first_job_among(
        objects::owner_models(jobs[i].owner_references),
        Some(ours),
    ) {
        if i < jobs.len() - 1 {
            law_every_other_owner_is_asked_about(state, jobs.drop_last(), ours, i);
            lemma_noticing_adds(before, jobs.last(), ours, other.uid);
        } else {
            lemma_noticing_adds(before, jobs.last(), ours, other.uid);
            if before.asked.contains(other.uid) && !state.asked.contains(other.uid) {
                lemma_asked_was_added(state, jobs.drop_last(), ours, other.uid);
                lemma_noticing_adds(before, jobs.last(), ours, other.uid);
            }
        }
    }
}

/// What a page adds to those that were met is to be asked about.
proof fn lemma_asked_was_added(
    state: SearchState,
    jobs: Seq<JobRecord>,
    ours: Seq<char>,
    uid: Seq<char>,
)
    requires
        noticed_all(state, jobs, ours).asked.contains(uid),
        !state.asked.contains(uid),
    ensures
        is_pending(noticed_all(state, jobs, ours).pending, uid),
    decreases jobs.len(),
{
    if jobs.len() > 0 {
        let before = noticed_all(state, jobs.drop_last(), ours);
        let after = noticed_all(state, jobs, ours);
        lemma_noticing_adds(before, jobs.last(), ours, uid);
        if before.asked.contains(uid) {
            lemma_asked_was_added(state, jobs.drop_last(), ours, uid);
        } else {
            let k = choose|k: int| 0 <= k < after.asked.len() && after.asked[k] == uid;
            if k < before.asked.len() {
                assert(before.asked[k] == uid);
            }
        }
    }
}

/// The owner that was found is another Job than ours.
proof fn lemma_found_is_another(references: Seq<OwnerModel>, ours: Seq<char>)
    ensures
        owners::first_job_among(references, Some(ours)) matches Some(other) ==> other.uid != ours,
    decreases references.len(),
{
    if references.len() > 0 {
        lemma_found_is_another(references.drop_first(), ours);
    }
}

/// What to do next about the Jobs of other runs.
#[derive(Debug)]
pub enum SearchStep {
    /// Read the Job of this name.
    Ask { name: String },
    /// List the page that a token stands for.
    List { token: String },
    /// No other run is still working.
    Nobody,
    /// The Job of this name is still working.
    Holder { name: String },
    /// It cannot be told, and why.
    Fail(String),
}

/// What the answer about the first of the pending owners leads to.
pub open spec fn answer_gives(
    pending: Seq<OwnerModel>,
    token: Option<Seq<char>>,
    fetched: Result<JobRecord, ApiError>,
    next: Option<Seq<char>>,
    r: SearchStep,
) -> bool {
    match fetched {
        Err(error) if pending.len() > 0 && error.code != Some(404u16) =>
            r matches SearchStep::Fail(why) && why@ == unknown_holder_text(
            pending[0].name,
            error.message@,
        ),
        Ok(found) if pending.len() > 0 && is_live(found, pending[0].uid) =>
            r matches SearchStep::Holder { name } && name@ == pending[0].name,
        _ => if pending.len() > 1 {
            r matches SearchStep::Ask { name } && name@ == pending[1].name && next == token
        } else {
            next is None && match token {
                Some(expected) => r matches SearchStep::List { token: listed } && listed@
                    == expected,
                None => r is Nobody,
            }
        },
    }
}

/// A run stands aside exactly for a Job that owns per-node Jobs and is still running; it goes
/// ahead only once every owner was asked about and the list is at its end, and stops where
/// an owner could not be read, but for one that is gone.
pub proof fn law_a_run_stands_aside_only_for_a_running_one(
    pending: Seq<OwnerModel>,
    token: Option<Seq<char>>,
    fetched: Result<JobRecord, ApiError>,
    next: Option<Seq<char>>,
    r: SearchStep,
)
    requires
        answer_gives(pending, token, fetched, next, r),
        pending.len() > 0,
    ensures
        r is Holder <==> fetched is Ok && is_live(fetched->Ok_0, pending[0].uid),
        r matches SearchStep::Holder { name } ==> name@ == pending[0].name,
        r is Fail <==> fetched is Err && fetched->Err_0.code != Some(404u16),
        r is Nobody ==> pending.len() == 1 && token is None,
        r is List ==> pending.len() == 1 && token is Some,
{
}

/// What is said when it cannot be told whether another run is still working.
pub open spec fn unknown_holder_text(name: Seq<char>, message: Seq<char>) -> Seq<char> {
    "failed to read the Job "@ + name
        + " that owns per-node Jobs of this name prefix; without knowing whether it is still running, this run can neither take them over nor stand aside: "@
        + message
}

/// Whether a Job that was read back is an unfinished run: it is the Job that was asked
/// about, not a later one of the same name, and it is still running.
pub open spec fn is_live(found: JobRecord, uid: Seq<char>) -> bool {
    text::opt_text(found.uid) == Some(uid) && job::outcome_of(found) == JobOutcome::Running
}

/// The search for another run of this name prefix that is still working.
///
/// The sweep deletes a Job owned by anyone but us as an earlier run's leftover, which is
/// right once that run has ended and wrong while it has not: two live runs would delete
/// each other's privileged pods mid-work. Only an unfinished owner counts, since leftovers
/// are what the sweep is for.
#[derive(Debug)]
pub struct LiveRunSearch {
    ours: String,
    asked: Vec<String>,
    pending: Vec<OwnerReference>,
    token: Option<String>,
}

/// The views of a list of owner references.
pub open spec fn owner_views(list: Seq<OwnerReference>) -> Seq<OwnerModel> {
    list.map_values(|o: OwnerReference| o@)
}

impl LiveRunSearch {
    /// This run's own UID.
    pub closed spec fn own_uid(self) -> Seq<char> {
        self.ours@
    }

    /// What is known so far.
    pub closed spec fn state(self) -> SearchState {
        SearchState { asked: text::texts(self.asked@), pending: owner_views(self.pending@) }
    }

    /// Where the list goes on.
    pub closed spec fn next_token(self) -> Option<Seq<char>> {
        text::opt_text(self.token)
    }

    /// A search that has not started. The first page is to be listed.
    pub fn new(owner: &OwnerReference) -> (r: Self)
        ensures
            r.own_uid() == owner.uid@,
            r.state() == (SearchState { asked: Seq::empty(), pending: Seq::empty() }),
            r.next_token() is None,
    {
        let r = LiveRunSearch {
            ours: owner.uid.clone(),
            asked: Vec::new(),
            pending: Vec::new(),
            token: None,
        };
        assert(text::texts(r.asked@) =~= Seq::empty());
        assert(owner_views(r.pending@) =~= Seq::empty());
        r
    }

    /// What to do next: ask about the owners that were met, then list on.
    fn next(&mut self) -> (r: SearchStep)
        ensures
            final(self).own_uid() == old(self).own_uid(),
            final(self).state() == old(self).state(),
            if old(self).state().pending.len() > 0 {
                r matches SearchStep::Ask { name } && name@ == old(self).state().pending[0].name
                    && final(self).next_token() == old(self).next_token()
            } else {
                final(self).next_token() is None && match old(self).next_token() {
                    Some(expected) => r matches SearchStep::List { token } && token@ == expected,
                    None => r is Nobody,
                }
            },
    {
        if self.pending.len() > 0 {
            return SearchStep::Ask { name: self.pending[0].name.clone() };
        }
        let mut token: Option<String> = None;
        std::mem::swap(&mut token, &mut self.token);
        match token {
            Some(token) => SearchStep::List { token },
            None => SearchStep::Nobody,
        }
    }

    /// Takes a page of the per-node Jobs of this name prefix, and where the list goes on.
    pub fn page(&mut self, jobs: &[JobRecord], token: Option<String>) -> (r: SearchStep)
        ensures
            final(self).own_uid() == old(self).own_uid(),
            ({
                let state = noticed_all(old(self).state(), jobs@, old(self).own_uid());
                let more = token is Some && text::opt_text(token)->0.len() > 0;
                &&& final(self).state() == state
                &&& if state.pending.len() > 0 {
                    r matches SearchStep::Ask { name } && name@ == state.pending[0].name
                        && final(self).next_token() == if more {
                        text::opt_text(token)
                    } else {
                        None
                    }
                } else if more {
                    r matches SearchStep::List { token: next } && Some(next@) == text::opt_text(
                        token,
                    ) && final(self).next_token() is None
                } else {
                    r is Nobody && final(self).next_token() is None
                }
            }),
    {
        let ghost start = self.state();
        let ghost uid = self.own_uid();
        let mut i: usize = 0;
        while i < jobs.len()
            invariant
                i <= jobs@.len(),
                self.own_uid() == uid,
                self.state() == noticed_all(start, jobs@.take(i as int), uid),
            decreases jobs@.len() - i,
        {
            proof {
                assert(jobs@.take(i + 1).drop_last() =~= jobs@.take(i as int));
                assert(jobs@.take(i + 1).last() == jobs@[i as int]);
            }
            self.notice(&jobs[i]);
            i = i + 1;
        }
        assert(jobs@.take(jobs@.len() as int) =~= jobs@);
        self.token = selection::next_page(token);
        self.next()
    }

    /// Takes one per-node Job.
    fn notice(&mut self, found: &JobRecord)
        ensures
            final(self).own_uid() == old(self).own_uid(),
            final(self).next_token() == old(self).next_token(),
            final(self).state() == noticed(old(self).state(), *found, old(self).own_uid()),
    {
        let ours = OwnerReference {
            api_version: String::new(),
            kind: String::new(),
            name: String::new(),
            uid: self.ours.clone(),
            controller: None,
            block_owner_deletion: None,
        };
        if let Some(other) = owners::foreign_owner_of(found, &ours) {
            if !text::contains(self.asked.as_slice(), other.uid.as_str()) {
                let ghost before = *self;
                self.asked.push(other.uid.clone());
                self.pending.push(other);
                assert(text::texts(self.asked@) =~= text::texts(before.asked@).push(other@.uid));
                assert(owner_views(self.pending@) =~= owner_views(before.pending@).push(other@));
            }
        }
    }

    /// Takes what came back for the owner that was asked about. A Job that is gone left its
    /// per-node Jobs for the sweep to take. Where none was asked about, nothing is taken.
    pub fn answer(&mut self, fetched: Result<JobRecord, ApiError>) -> (r: SearchStep)
        ensures
            final(self).own_uid() == old(self).own_uid(),
            final(self).state().asked == old(self).state().asked,
            final(self).state().pending == if old(self).state().pending.len() > 0 {
                old(self).state().pending.drop_first()
            } else {
                old(self).state().pending
            },
            answer_gives(
                old(self).state().pending,
                old(self).next_token(),
                fetched,
                final(self).next_token(),
                r,
            ),
    {
        let ghost before = owner_views(self.pending@);
        if self.pending.len() == 0 {
            return self.next();
        }
        let other: OwnerReference = self.pending.remove(0);
        proof {
            assert(owner_views(self.pending@) =~= before.drop_first());
            assert(before[0] == other@);
        }
        match &fetched {
            Err(error) => {
                let gone: bool = match error.code {
                    Some(code) => code == 404,
                    None => false,
                };
                if !gone {
                    return SearchStep::Fail(
                        "failed to read the Job ".to_string().concat(other.name.as_str()).concat(
                            " that owns per-node Jobs of this name prefix; without knowing whether it is still running, this run can neither take them over nor stand aside: ",
                        ).concat(error.message.as_str()),
                    );
                }
            },
            Ok(found) => {
                // The name may have been reused by a later Job, which says nothing about the
                // run being asked about.
                let same: bool = match &found.uid {
                    Some(uid) => text::same(uid.as_str(), other.uid.as_str()),
                    None => false,
                };
                if same && job::interpret_status(found) == JobOutcome::Running {
                    return SearchStep::Holder { name: other.name };
                }
            },
        }
        self.next()
    }
}

/// How many stale Jobs are deleted at once.
pub const DELETE_CONCURRENCY: usize = 16;

/// How often a name that is still being freed is tried.
pub const REPLACE_ATTEMPTS: u32 = 30;

/// Seconds between two tries.
pub const REPLACE_INTERVAL_SECS: u64 = 2;

/// The deletion of the Jobs that an earlier run left behind, before any slot is opened.
/// Their pods still count against the parallelism the caller asked for, and a privileged
/// pod from a previous run doing the same work concurrently is exactly what the pacing
/// exists to prevent.
#[derive(Debug)]
pub struct Sweep {
    pending: Vec<String>,
    running: usize,
}

impl Sweep {
    /// The names of the Jobs still to be deleted, in order.
    pub closed spec fn names(self) -> Seq<Seq<char>> {
        text::texts(self.pending@)
    }

    /// How many deletions are running.
    pub closed spec fn in_flight(self) -> int {
        self.running as int
    }

    #[verifier::type_invariant]
    spec fn wf(self) -> bool {
        self.running <= DELETE_CONCURRENCY
    }

    /// A sweep that has not started.
    pub fn new(names: Vec<String>) -> (r: Self)
        ensures
            r.names() == text::texts(names@),
            r.in_flight() == 0,
    {
        Sweep { pending: names, running: 0 }
    }

    /// The next Job to delete, while there is room for one more deletion.
    pub fn next(&mut self) -> (r: Option<String>)
        ensures
            0 <= final(self).in_flight() <= DELETE_CONCURRENCY,
            if old(self).in_flight() < DELETE_CONCURRENCY && old(self).names().len() > 0 {
                &&& text::opt_text(r) == Some(old(self).names()[0])
                &&& final(self).names() == old(self).names().drop_first()
                &&& final(self).in_flight() == old(self).in_flight() + 1
            } else {
                r is None && *final(self) == *old(self)
            },
    {
        proof {
            use_type_invariant(&*self);
        }
        if self.running >= DELETE_CONCURRENCY || self.pending.len() == 0 {
            return None;
        }
        let ghost before = self.names();
        let mut pending: Vec<String> = Vec::new();
        std::mem::swap(&mut pending, &mut self.pending);
        let name: String = pending.remove(0);
        assert(text::texts(pending@) =~= before.drop_first());
        assert(before[0] == name@);
        self.pending = pending;
        self.running = self.running + 1;
        Some(name)
    }

    /// Takes the answer to one deletion. A Job that is gone already is as good as deleted.
    pub fn deleted(&mut self, name: &str, answer: Result<(), ApiError>) -> (r: Result<(), String>)
        ensures
            final(self).names() == old(self).names(),
            final(self).in_flight() == if old(self).in_flight() > 0 {
                old(self).in_flight() - 1
            } else {
                0
            },
            match answer {
                Err(error) if error.code != Some(404u16) => r matches Err(why) && why@
                    == "failed to delete the stale per-node job "@ + name@ + ": "@ + error.message@,
                _ => r is Ok,
            },
    {
        proof {
            use_type_invariant(&*self);
        }
        if self.running > 0 {
            self.running = self.running - 1;
        }
        match &answer {
            Err(error) => {
                let gone: bool = match error.code {
                    Some(code) => code == 404,
                    None => false,
                };
                if gone {
                    Ok(())
                } else {
                    Err(
                        "failed to delete the stale per-node job ".to_string().concat(name).concat(
                            ": ",
                        ).concat(error.message.as_str()),
                    )
                }
            },
            Ok(_) => Ok(()),
        }
    }

    /// Whether every deletion was answered.
    pub fn is_done(&self) -> (r: bool)
        ensures
            r == (self.names().len() == 0 && self.in_flight() == 0),
    {
        assert(text::texts(self.pending@).len() == self.pending@.len());
        self.pending.len() == 0 && self.running == 0
    }
}

/// What to do about Jobs that are being deleted.
#[derive(Debug)]
pub enum ClearStep {
    /// Nothing more: they are gone.
    Clear,
    /// Wait for the interval between two tries.
    Wait,
    /// Look whether they are still there.
    Look,
    /// They are not going, and why nothing more is started.
    Fail(String),
}

/// What is said when deleted Jobs do not go.
pub open spec fn still_terminating_text() -> Seq<char> {
    "stale per-node Jobs were still terminating after "@ + text::decimal(
        (REPLACE_ATTEMPTS * REPLACE_INTERVAL_SECS) as nat,
    ) + "s; refusing to start more Jobs beyond the configured parallelism"@
}

/// The wait for Jobs that are being deleted to be gone.
#[derive(Debug)]
pub struct Clearing {
    looks: u32,
}

impl Clearing {
    /// How often they were seen to be there still.
    pub closed spec fn seen(self) -> int {
        self.looks as int
    }

    #[verifier::type_invariant]
    spec fn wf(self) -> bool {
        self.looks <= REPLACE_ATTEMPTS
    }

    /// A wait that starts with a look.
    pub fn new() -> (r: Self)
        ensures
            r.seen() == 0,
    {
        Clearing { looks: 0 }
    }

    /// Takes whether they are still there.
    pub fn looked(&mut self, still_there: bool) -> (r: ClearStep)
        ensures
            final(self).seen() == if still_there && old(self).seen() < REPLACE_ATTEMPTS {
                old(self).seen() + 1
            } else {
                old(self).seen()
            },
            if still_there {
                r is Wait
            } else {
                r is Clear
            },
    {
        if !still_there {
            return ClearStep::Clear;
        }
        if self.looks < REPLACE_ATTEMPTS {
            self.looks = self.looks + 1;
        }
        ClearStep::Wait
    }

    /// Says what comes after the interval: another look, unless there were enough.
    pub fn waited(&self) -> (r: ClearStep)
        ensures
            if self.seen() < REPLACE_ATTEMPTS {
                r is Look
            } else {
                r matches ClearStep::Fail(why) && why@ == still_terminating_text()
            },
    {
        if self.looks < REPLACE_ATTEMPTS {
            return ClearStep::Look;
        }
        let secs: u64 = (REPLACE_ATTEMPTS as u64) * REPLACE_INTERVAL_SECS;
        ClearStep::Fail(
            "stale per-node Jobs were still terminating after ".to_string().concat(
                text::number(secs).as_str(),
            ).concat("s; refusing to start more Jobs beyond the configured parallelism"),
        )
    }
}

/// What to do next about a Job that is to be replaced.
#[derive(Debug)]
pub enum ReplaceStep {
    /// Create it.
    Create,
    /// Wait for the interval between two tries: the name is still taken.
    Wait,
    /// It was recreated.
    Done,
    /// It was not, and why.
    Fail(String),
}

/// The replacement of a Job that an earlier run left. Deletion is asynchronous and the name
/// is only free once it completes, so creating is tried again while the name is taken.
#[derive(Debug)]
pub struct Replacement {
    name: String,
    tries: u32,
}

/// What is said of a Job whose name does not become free.
pub open spec fn still_deleting_text(name: Seq<char>) -> Seq<char> {
    "the stale job "@ + name + " was still being deleted "@ + text::decimal(
        (REPLACE_ATTEMPTS * REPLACE_INTERVAL_SECS) as nat,
    ) + "s after it was asked to go; giving up on recreating it"@
}

impl Replacement {
    /// The Job's name.
    pub closed spec fn job_text(self) -> Seq<char> {
        self.name@
    }

    /// How often creating it was tried.
    pub closed spec fn tried(self) -> int {
        self.tries as int
    }

    #[verifier::type_invariant]
    spec fn wf(self) -> bool {
        self.tries <= REPLACE_ATTEMPTS
    }

    /// A replacement that has not started. The Job is to be deleted first, in the
    /// foreground, so that it outlives its pods rather than the other way round: two of
    /// these pods on one node would both do the same privileged work at the same time.
    pub fn new(name: &str) -> (r: Self)
        ensures
            r.job_text() == name@,
            r.tried() == 0,
    {
        Replacement { name: name.to_string(), tries: 0 }
    }

    /// What the answer to the deletion leads to. A Job that is gone already is as good as
    /// deleted.
    pub open spec fn deletion_gives(self, answer: Result<(), ApiError>, r: ReplaceStep) -> bool {
        match answer {
            Err(error) if error.code != Some(404u16) => r matches ReplaceStep::Fail(why) && why@
                == "failed to delete the stale job "@ + self.job_text() + ": "@ + error.message@,
            _ => r is Create,
        }
    }

    /// What the answer to one creation leads to.
    pub open spec fn creation_gives(
        self,
        answer: Result<(), ApiError>,
        after: Replacement,
        r: ReplaceStep,
    ) -> bool {
        &&& after.job_text() == self.job_text()
        &&& after.tried() <= REPLACE_ATTEMPTS
        &&& after.tried() == if self.tried() < REPLACE_ATTEMPTS {
            self.tried() + 1
        } else {
            self.tried()
        }
        &&& match answer {
            Ok(_) => r is Done,
            Err(error) => if error.code != Some(409u16) {
                r matches ReplaceStep::Fail(why) && why@ == "failed to recreate the job "@
                    + self.job_text() + ": "@ + error.message@
            } else {
                r is Wait
            },
        }
    }

    /// What comes after the interval.
    pub open spec fn waiting_gives(self, r: ReplaceStep) -> bool {
        if self.tried() < REPLACE_ATTEMPTS {
            r is Create
        } else {
            r matches ReplaceStep::Fail(why) && why@ == still_deleting_text(self.job_text())
        }
    }

    /// Takes the answer to the deletion.
    pub fn deleted(&self, answer: Result<(), ApiError>) -> (r: ReplaceStep)
        ensures
            self.deletion_gives(answer, r),
    {
        match &answer {
            Err(error) => {
                let gone: bool = match error.code {
                    Some(code) => code == 404,
                    None => false,
                };
                if gone {
                    ReplaceStep::Create
                } else {
                    ReplaceStep::Fail(
                        "failed to delete the stale job ".to_string().concat(
                            self.name.as_str(),
                        ).concat(": ").concat(error.message.as_str()),
                    )
                }
            },
            Ok(_) => ReplaceStep::Create,
        }
    }

    /// Takes the answer to one creation.
    pub fn created(&mut self, answer: Result<(), ApiError>) -> (r: ReplaceStep)
        ensures
            old(self).creation_gives(answer, *final(self), r),
    {
        proof {
            use_type_invariant(&*self);
        }
        if self.tries < REPLACE_ATTEMPTS {
            self.tries = self.tries + 1;
        }
        let error: ApiError = match answer {
            Ok(_) => {
                return ReplaceStep::Done;
            },
            Err(error) => error,
        };
        let taken: bool = match error.code {
            Some(code) => code == 409,
            None => false,
        };
        if !taken {
            return ReplaceStep::Fail(
                "failed to recreate the job ".to_string().concat(self.name.as_str()).concat(
                    ": ",
                ).concat(error.message.as_str()),
            );
        }
        ReplaceStep::Wait
    }

    /// Says what comes after the interval: another try, unless there were enough.
    pub fn waited(&self) -> (r: ReplaceStep)
        ensures
            self.waiting_gives(r),
    {
        if self.tries < REPLACE_ATTEMPTS {
            return ReplaceStep::Create;
        }
        let secs: u64 = (REPLACE_ATTEMPTS as u64) * REPLACE_INTERVAL_SECS;
        ReplaceStep::Fail(
            "the stale job ".to_string().concat(self.name.as_str()).concat(
                " was still being deleted ",
            ).concat(text::number(secs).as_str()).concat(
                "s after it was asked to go; giving up on recreating it",
            ),
        )
    }
}

/// A fleet is held by a Job only where it is the very Job that owns the per-node Jobs, and it
/// has neither completed nor failed.
pub proof fn law_a_fleet_is_held_by_a_running_job(found: JobRecord, uid: Seq<char>)
    ensures
        is_live(found, uid) <==> {
            &&& found.uid is Some && found.uid->0@ == uid
            &&& found.conditions matches Some(list) ==> forall|i: int|
                0 <= i < list@.len() ==> !job::holds(#[trigger] list@[i], "Complete"@)
                    && !job::holds(list@[i], "Failed"@)
        },
{
    if found.conditions is Some {
        job::law_a_job_has_ended_where_it_says_so(found);
    }
}

/// Deleting a stale Job is done where it was deleted or is gone already, and fails the node
/// otherwise.
pub proof fn law_a_job_that_is_gone_is_deleted(
    replacement: Replacement,
    answer: Result<(), ApiError>,
    step: ReplaceStep,
)
    requires
        replacement.deletion_gives(answer, step),
    ensures
        step is Create <==> answer is Ok || answer->Err_0.code == Some(404u16),
        !(step is Create) ==> step is Fail,
{
}

/// Creating a Job anew is done where it was created, waits while the old one still has the
/// name, and fails the node otherwise; every try is counted.
pub proof fn law_a_name_is_waited_for(
    replacement: Replacement,
    answer: Result<(), ApiError>,
    after: Replacement,
    step: ReplaceStep,
)
    requires
        replacement.creation_gives(answer, after, step),
        replacement.tried() < REPLACE_ATTEMPTS,
    ensures
        step is Done <==> answer is Ok,
        step is Wait <==> answer is Err && answer->Err_0.code == Some(409u16),
        after.tried() == replacement.tried() + 1,
{
}

/// A name that does not become free is tried for again exactly as long as tries are left.
pub proof fn law_waiting_for_a_name_ends(replacement: Replacement, step: ReplaceStep)
    requires
        replacement.waiting_gives(step),
    ensures
        step is Create <==> replacement.tried() < 30,
        step is Fail <==> replacement.tried() >= 30,
{
}

} // verus!
