//! The account of a rollout: where each selected node stands, and what moves it on.
//!
//! A node is known by its place in the selection. At any moment it is still queued, in
//! hand, in flight, finishing, or settled; the moves below take it from one to the next.

use vstd::multiset::Multiset;
use vstd::prelude::*;

verus! {

/// A node whose Job was created.
pub ghost struct FlightModel {
    /// The node's place in the selection.
    pub at: int,
    /// What the Job is called.
    pub job: Seq<char>,
    /// When it was created, in nanoseconds since the run started.
    pub dispatched_at: int,
    /// Since when its status could not be read.
    pub unreadable_since: Option<int>,
    /// When it was last asked what it waits for.
    pub asked_at: Option<int>,
    /// What it was last seen to wait for.
    pub last_seen: Option<Seq<char>>,
}

/// The account of a rollout.
pub ghost struct Ledger {
    /// How many nodes were selected.
    pub total: int,
    /// How many may be worked on at once.
    pub slots: int,
    /// How many were taken off the queue.
    pub next: int,
    /// The node that is being dispatched to.
    pub in_hand: Option<int>,
    pub flights: Seq<FlightModel>,
    /// The nodes whose Job succeeded and whose work afterwards is going on.
    pub finishing: Seq<int>,
    pub succeeded: Seq<int>,
    /// The nodes without a name, which nothing was done about.
    pub skipped: Seq<int>,
    /// The nodes that failed, and why, in the order they did.
    pub failed: Seq<(int, Seq<char>)>,
}

/// The account before anything was done.
pub open spec fn opened(total: int, slots: int) -> Ledger {
    Ledger {
        total,
        slots,
        next: 0,
        in_hand: None,
        flights: Seq::empty(),
        finishing: Seq::empty(),
        succeeded: Seq::empty(),
        skipped: Seq::empty(),
        failed: Seq::empty(),
    }
}

/// How many slots are taken: post-success work holds one too, since the node is not done
/// before it finishes.
pub open spec fn busy(l: Ledger) -> int {
    l.flights.len() + l.finishing.len() + if l.in_hand is Some {
        1int
    } else {
        0int
    }
}

/// Whether another node can be taken off the queue.
pub open spec fn can_take(l: Ledger) -> bool {
    l.in_hand is None && busy(l) < l.slots && l.next < l.total
}

/// The next node is taken off the queue.
pub open spec fn taken(l: Ledger) -> Ledger {
    Ledger { in_hand: Some(l.next), next: l.next + 1, ..l }
}

/// The node in hand has no name, and nothing is done about it.
pub open spec fn passed_over(l: Ledger) -> Ledger {
    match l.in_hand {
        Some(at) => Ledger { in_hand: None, skipped: l.skipped.push(at), ..l },
        None => l,
    }
}

/// The node in hand is left as it is, which is what was wanted of it.
pub open spec fn left_alone(l: Ledger) -> Ledger {
    match l.in_hand {
        Some(at) => Ledger { in_hand: None, succeeded: l.succeeded.push(at), ..l },
        None => l,
    }
}

/// The node in hand cannot be dispatched to.
pub open spec fn refused(l: Ledger, reason: Seq<char>) -> Ledger {
    match l.in_hand {
        Some(at) => Ledger { in_hand: None, failed: l.failed.push((at, reason)), ..l },
        None => l,
    }
}

/// The Job of the node in hand was created.
pub open spec fn dispatched(l: Ledger, job: Seq<char>, now: int) -> Ledger {
    match l.in_hand {
        Some(at) => Ledger {
            in_hand: None,
            flights: l.flights.push(
                FlightModel {
                    at,
                    job,
                    dispatched_at: now,
                    unreadable_since: None,
                    asked_at: None,
                    last_seen: None,
                },
            ),
            ..l
        },
        None => l,
    }
}

/// A Job is about to be read: unless it is read, it has been unreadable since now.
pub open spec fn unread_from(flight: FlightModel, now: int) -> FlightModel {
    match flight.unreadable_since {
        Some(_) => flight,
        None => FlightModel { unreadable_since: Some(now), ..flight },
    }
}

/// Every Job in flight is about to be read.
pub open spec fn polling(l: Ledger, now: int) -> Ledger {
    Ledger { flights: l.flights.map_values(|f: FlightModel| unread_from(f, now)), ..l }
}

/// Where the Job of a name is in flight; the number of flights where it is not.
pub open spec fn flight_of(flights: Seq<FlightModel>, job: Seq<char>) -> int
    decreases flights.len(),
{
    if flights.len() == 0 || flights[0].job == job {
        0
    } else {
        1 + flight_of(flights.drop_first(), job)
    }
}

/// A Job in flight is changed in what is known of it, not in whose it is.
pub open spec fn updated(l: Ledger, k: int, flight: FlightModel) -> Ledger {
    Ledger { flights: l.flights.update(k, flight), ..l }
}

/// A Job in flight failed its node.
pub open spec fn flight_failed(l: Ledger, k: int, reason: Seq<char>) -> Ledger {
    Ledger {
        flights: l.flights.remove(k),
        failed: l.failed.push((l.flights[k].at, reason)),
        ..l
    }
}

/// A Job in flight succeeded, and the work afterwards starts.
pub open spec fn flight_finishing(l: Ledger, k: int) -> Ledger {
    Ledger {
        flights: l.flights.remove(k),
        finishing: l.finishing.push(l.flights[k].at),
        ..l
    }
}

/// Where a node is finishing; the number of finishing nodes where it is not.
pub open spec fn finishing_of(finishing: Seq<int>, at: int) -> int
    decreases finishing.len(),
{
    if finishing.len() == 0 || finishing[0] == at {
        0
    } else {
        1 + finishing_of(finishing.drop_first(), at)
    }
}

/// The work after a Job succeeded is done too.
pub open spec fn finished_well(l: Ledger, k: int) -> Ledger {
    Ledger {
        finishing: l.finishing.remove(k),
        succeeded: l.succeeded.push(l.finishing[k]),
        ..l
    }
}

/// The work after a Job succeeded failed: the node is only complete once it is labelled.
pub open spec fn finished_badly(l: Ledger, k: int, reason: Seq<char>) -> Ledger {
    Ledger {
        finishing: l.finishing.remove(k),
        failed: l.failed.push((l.finishing[k], reason)),
        ..l
    }
}

/// The node in hand, where there is one.
pub open spec fn hand(l: Ledger) -> Multiset<int> {
    match l.in_hand {
        Some(at) => Multiset::singleton(at),
        None => Multiset::empty(),
    }
}

/// The nodes whose Jobs are in flight.
pub open spec fn flying(l: Ledger) -> Seq<int> {
    l.flights.map_values(|f: FlightModel| f.at)
}

/// The nodes that failed.
pub open spec fn fallen(l: Ledger) -> Seq<int> {
    l.failed.map_values(|f: (int, Seq<char>)| f.0)
}

/// Every node that was taken off the queue, as often as it stands anywhere.
pub open spec fn everyone(l: Ledger) -> Multiset<int> {
    hand(l).add(flying(l).to_multiset()).add(l.finishing.to_multiset()).add(
        l.succeeded.to_multiset(),
    ).add(l.skipped.to_multiset()).add(fallen(l).to_multiset())
}

/// The first `n` places, each once.
pub open spec fn first(n: int) -> Multiset<int>
    decreases n,
{
    if n <= 0 {
        Multiset::empty()
    } else {
        first(n - 1).insert(n - 1)
    }
}

/// The account adds up: every node that was taken off the queue stands in exactly one
/// place, and no more slots are taken than there are.
pub open spec fn adds_up(l: Ledger) -> bool {
    &&& 0 <= l.next <= l.total
    &&& busy(l) <= l.slots
    &&& everyone(l) == first(l.next)
}

/// Among the first `n` places each stands once, and no other does.
proof fn lemma_first_counts(n: int)
    ensures
        forall|x: int|
            #[trigger] first(n).count(x) == if 0 <= x < n {
                1nat
            } else {
                0nat
            },
    decreases n,
{
    broadcast use vstd::multiset::group_multiset_axioms;

    if n > 0 {
        lemma_first_counts(n - 1);
        assert forall|x: int|
            #[trigger] first(n).count(x) == if 0 <= x < n {
                1nat
            } else {
                0nat
            } by {
            let before = first(n - 1);
            assert(before.insert(n - 1).count(x) == before.count(x) + if x == n - 1 {
                1nat
            } else {
                0nat
            });
        }
    }
}

/// A new account adds up.
pub proof fn law_a_new_account_adds_up(total: int, slots: int)
    requires
        total >= 0,
        slots >= 0,
    ensures
        adds_up(opened(total, slots)),
{
    broadcast use vstd::multiset::group_multiset_axioms;
    broadcast use vstd::seq_lib::group_to_multiset_ensures;

    let l = opened(total, slots);
    assert(flying(l) =~= Seq::empty());
    assert(fallen(l) =~= Seq::empty());
    assert(Seq::<int>::empty().to_multiset() =~= Multiset::empty());
    assert(everyone(l) =~= first(0));
}

/// Taking a node off the queue keeps the account.
pub proof fn law_taking_keeps_the_account(l: Ledger)
    requires
        adds_up(l),
        can_take(l),
    ensures
        adds_up(taken(l)),
{
    broadcast use vstd::multiset::group_multiset_axioms;

    let m = taken(l);
    assert(flying(m) == flying(l));
    assert(fallen(m) == fallen(l));
    assert(everyone(m) =~= everyone(l).insert(l.next));
    assert(first(m.next) == first(l.next).insert(l.next));
}

/// Whatever becomes of the node in hand keeps the account.
pub proof fn law_the_hand_is_settled_once(l: Ledger, reason: Seq<char>, job: Seq<char>, now: int)
    requires
        adds_up(l),
    ensures
        adds_up(passed_over(l)),
        adds_up(left_alone(l)),
        adds_up(refused(l, reason)),
        adds_up(dispatched(l, job, now)),
{
    broadcast use vstd::multiset::group_multiset_axioms;
    broadcast use vstd::seq_lib::group_to_multiset_ensures;

    if let Some(at) = l.in_hand {
        let a = passed_over(l);
        assert(flying(a) == flying(l));
        assert(fallen(a) == fallen(l));
        assert(everyone(a) =~= everyone(l));
        let b = left_alone(l);
        assert(flying(b) == flying(l));
        assert(fallen(b) == fallen(l));
        assert(everyone(b) =~= everyone(l));
        let c = refused(l, reason);
        assert(flying(c) == flying(l));
        assert(fallen(c) =~= fallen(l).push(at));
        assert(everyone(c) =~= everyone(l));
        let d = dispatched(l, job, now);
        assert(flying(d) =~= flying(l).push(at));
        assert(fallen(d) == fallen(l));
        assert(everyone(d) =~= everyone(l));
    }
}

/// Polling, and learning about a Job in flight, keep the account.
pub proof fn law_looking_keeps_the_account(l: Ledger, now: int, k: int, flight: FlightModel)
    requires
        adds_up(l),
    ensures
        adds_up(polling(l, now)),
        0 <= k < l.flights.len() && flight.at == l.flights[k].at ==> adds_up(
            updated(l, k, flight),
        ),
{
    let a = polling(l, now);
    assert(flying(a) =~= flying(l));
    assert(fallen(a) == fallen(l));
    if 0 <= k < l.flights.len() && flight.at == l.flights[k].at {
        let b = updated(l, k, flight);
        assert(flying(b) =~= flying(l));
        assert(fallen(b) == fallen(l));
    }
}

/// What becomes of a Job in flight keeps the account: its slot goes to the work
/// afterwards, or is freed.
pub proof fn law_a_landing_keeps_the_account(l: Ledger, k: int, reason: Seq<char>)
    requires
        adds_up(l),
        0 <= k < l.flights.len(),
    ensures
        adds_up(flight_failed(l, k, reason)),
        adds_up(flight_finishing(l, k)),
        busy(flight_failed(l, k, reason)) == busy(l) - 1,
        busy(flight_finishing(l, k)) == busy(l),
{
    broadcast use vstd::multiset::group_multiset_axioms;
    broadcast use vstd::seq_lib::group_to_multiset_ensures;

    let at = l.flights[k].at;
    assert(flying(l)[k] == at);
    assert(flying(l).contains(at));
    let a = flight_failed(l, k, reason);
    assert(flying(a) =~= flying(l).remove(k));
    assert(fallen(a) =~= fallen(l).push(at));
    assert(everyone(a) =~= everyone(l));
    let b = flight_finishing(l, k);
    assert(flying(b) =~= flying(l).remove(k));
    assert(fallen(b) == fallen(l));
    assert(everyone(b) =~= everyone(l));
}

/// The end of the work afterwards keeps the account and frees the slot.
pub proof fn law_finishing_keeps_the_account(l: Ledger, k: int, reason: Seq<char>)
    requires
        adds_up(l),
        0 <= k < l.finishing.len(),
    ensures
        adds_up(finished_well(l, k)),
        adds_up(finished_badly(l, k, reason)),
        busy(finished_well(l, k)) == busy(l) - 1,
        busy(finished_badly(l, k, reason)) == busy(l) - 1,
{
    broadcast use vstd::multiset::group_multiset_axioms;
    broadcast use vstd::seq_lib::group_to_multiset_ensures;

    let at = l.finishing[k];
    assert(l.finishing.contains(at));
    let a = finished_well(l, k);
    assert(flying(a) == flying(l));
    assert(fallen(a) == fallen(l));
    assert(everyone(a) =~= everyone(l));
    let b = finished_badly(l, k, reason);
    assert(flying(b) == flying(l));
    assert(fallen(b) =~= fallen(l).push(at));
    assert(everyone(b) =~= everyone(l));
}

/// What is in flight was selected.
pub proof fn lemma_flights_stand_in_the_selection(l: Ledger, k: int)
    requires
        adds_up(l),
        0 <= k < l.flights.len(),
    ensures
        0 <= l.flights[k].at < l.total,
{
    broadcast use vstd::multiset::group_multiset_axioms;
    broadcast use vstd::seq_lib::group_to_multiset_ensures;

    let at = l.flights[k].at;
    assert(flying(l)[k] == at);
    assert(flying(l).contains(at));
    assert(everyone(l).count(at) >= 1);
    lemma_first_counts(l.next);
    assert(first(l.next).count(at) >= 1);
}

/// What failed was selected.
pub proof fn lemma_failures_stand_in_the_selection(l: Ledger, k: int)
    requires
        adds_up(l),
        0 <= k < l.failed.len(),
    ensures
        0 <= l.failed[k].0 < l.total,
{
    broadcast use vstd::multiset::group_multiset_axioms;
    broadcast use vstd::seq_lib::group_to_multiset_ensures;

    let at = l.failed[k].0;
    assert(fallen(l)[k] == at);
    assert(fallen(l).contains(at));
    assert(everyone(l).count(at) >= 1);
    lemma_first_counts(l.next);
    assert(first(l.next).count(at) >= 1);
}

/// Whether a rollout is over: nothing can be taken, and nothing is being worked on.
pub open spec fn is_over(l: Ledger) -> bool {
    !can_take(l) && l.in_hand is None && l.flights.len() == 0 && l.finishing.len() == 0
}

/// Every selected node is covered exactly once: when a rollout with at least one slot is
/// over, each node stands exactly once among those that succeeded, those that failed and
/// those that had no name.
pub proof fn law_every_node_is_covered_exactly_once(l: Ledger, at: int)
    requires
        adds_up(l),
        is_over(l),
        l.slots >= 1,
        0 <= at < l.total,
    ensures
        l.succeeded.to_multiset().count(at) + fallen(l).to_multiset().count(at)
            + l.skipped.to_multiset().count(at) == 1,
{
    broadcast use vstd::multiset::group_multiset_axioms;
    broadcast use vstd::seq_lib::group_to_multiset_ensures;

    assert(l.next == l.total);
    lemma_first_counts(l.next);
    assert(first(l.next).count(at) == 1);
    assert(flying(l) =~= Seq::empty());
    assert(l.finishing =~= Seq::empty());
    assert(Seq::<int>::empty().to_multiset() =~= Multiset::empty());
    assert(everyone(l).count(at) == 1);
}

/// No more Jobs are in flight at any moment than there are slots, those whose node is still
/// being finished among them.
pub proof fn law_no_more_jobs_than_slots(l: Ledger)
    requires
        adds_up(l),
    ensures
        l.flights.len() + l.finishing.len() <= l.slots,
{
}

/// No node is dispatched to twice: none that is in hand, in flight or settled stands
/// anywhere else.
pub proof fn law_no_node_stands_twice(l: Ledger, at: int)
    requires
        adds_up(l),
    ensures
        everyone(l).count(at) <= 1,
        at >= l.next ==> everyone(l).count(at) == 0,
{
    lemma_first_counts(l.next);
    assert(everyone(l).count(at) == first(l.next).count(at));
}

/// A rollout over which no node failed, and none had to be passed over, succeeded on every
/// node.
pub proof fn law_success_means_every_node(l: Ledger, at: int)
    requires
        adds_up(l),
        is_over(l),
        l.slots >= 1,
        0 <= at < l.total,
        l.failed.len() == 0,
        l.skipped.len() == 0,
    ensures
        l.succeeded.contains(at),
{
    broadcast use vstd::seq_lib::group_to_multiset_ensures;

    law_every_node_is_covered_exactly_once(l, at);
    assert(fallen(l) =~= Seq::empty());
    assert(l.skipped =~= Seq::empty());
    broadcast use vstd::multiset::group_multiset_axioms;

    assert(Seq::<int>::empty().to_multiset() =~= Multiset::empty());
}

/// A free slot is used: while nothing is in hand, fewer Jobs are under way than there are
/// slots, and a node is left, the next one is taken, and only then.
pub proof fn law_a_free_slot_is_used(l: Ledger)
    ensures
        can_take(l) <==> l.in_hand is None && l.flights.len() + l.finishing.len() < l.slots
            && l.next < l.total,
        taken(l).in_hand == Some(l.next),
        taken(l).next == l.next + 1,
        taken(l).flights == l.flights,
        taken(l).finishing == l.finishing,
        taken(l).succeeded == l.succeeded,
        taken(l).skipped == l.skipped,
        taken(l).failed == l.failed,
{
}

/// A rollout with slots is over exactly where every node was taken and none is under way.
pub proof fn law_a_rollout_is_over_when_nothing_is_left(l: Ledger)
    requires
        adds_up(l),
        l.slots >= 1,
    ensures
        is_over(l) <==> l.next == l.total && l.in_hand is None && l.flights.len() == 0
            && l.finishing.len() == 0,
{
}

/// A flight is found by what its Job is called.
pub proof fn law_a_flight_is_found_by_its_job(flights: Seq<FlightModel>, job: Seq<char>, at: int)
    requires
        0 <= at < flights.len(),
        flights[at].job == job,
        forall|j: int| 0 <= j < at ==> (#[trigger] flights[j]).job != job,
    ensures
        flight_of(flights, job) == at,
    decreases at,
{
    if at > 0 {
        let rest = flights.drop_first();
        assert(flights[0].job != job);
        assert forall|j: int| 0 <= j < at - 1 implies (#[trigger] rest[j]).job != job by {
            assert(rest[j] == flights[j + 1]);
        }
        law_a_flight_is_found_by_its_job(rest, job, at - 1);
    }
}

/// A Job that is not in flight is not found.
pub proof fn law_no_other_flight_is_found(flights: Seq<FlightModel>, job: Seq<char>)
    requires
        forall|j: int| 0 <= j < flights.len() ==> (#[trigger] flights[j]).job != job,
    ensures
        flight_of(flights, job) >= flights.len(),
    decreases flights.len(),
{
    if flights.len() > 0 {
        let rest = flights.drop_first();
        assert(flights[0].job != job);
        assert forall|j: int| 0 <= j < rest.len() implies (#[trigger] rest[j]).job != job by {
            assert(rest[j] == flights[j + 1]);
        }
        law_no_other_flight_is_found(rest, job);
    }
}

/// A dispatched Job is in flight from then on, for the node that was in hand, and nothing else
/// of the account changes.
pub proof fn law_a_dispatched_job_is_in_flight(l: Ledger, job: Seq<char>, now: int)
    requires
        l.in_hand is Some,
    ensures
        dispatched(l, job, now).in_hand is None,
        dispatched(l, job, now).flights.len() == l.flights.len() + 1,
        dispatched(l, job, now).flights.last().at == l.in_hand->0,
        dispatched(l, job, now).flights.last().job == job,
        dispatched(l, job, now).flights.last().dispatched_at == now,
        dispatched(l, job, now).flights.last().unreadable_since is None,
        dispatched(l, job, now).flights.drop_last() == l.flights,
        dispatched(l, job, now).failed == l.failed,
        dispatched(l, job, now).succeeded == l.succeeded,
{
    assert(dispatched(l, job, now).flights.drop_last() =~= l.flights);
}

/// A refused node fails for the reason that it was refused, and a node that is left alone
/// counts as done.
pub proof fn law_what_is_in_hand_is_settled_as_said(l: Ledger, reason: Seq<char>)
    requires
        l.in_hand is Some,
    ensures
        refused(l, reason).failed == l.failed.push((l.in_hand->0, reason)),
        refused(l, reason).succeeded == l.succeeded,
        left_alone(l).succeeded == l.succeeded.push(l.in_hand->0),
        left_alone(l).failed == l.failed,
        passed_over(l).skipped == l.skipped.push(l.in_hand->0),
        passed_over(l).succeeded == l.succeeded,
        refused(l, reason).in_hand is None,
        left_alone(l).in_hand is None,
        passed_over(l).in_hand is None,
{
}

/// How long a Job could not be read counts from the first look that failed, and a look that
/// succeeded starts it anew.
pub proof fn law_unreadable_time_counts_from_the_first_look(l: Ledger, now: int, later: int, k: int)
    requires
        0 <= k < l.flights.len(),
        l.flights[k].unreadable_since is None,
    ensures
        polling(l, now).flights[k].unreadable_since == Some(now),
        polling(polling(l, now), later).flights[k].unreadable_since == Some(now),
        polling(l, now).flights[k].job == l.flights[k].job,
        polling(l, now).flights[k].at == l.flights[k].at,
        polling(l, now).flights[k].dispatched_at == l.flights[k].dispatched_at,
{
}

/// What is found by what its Job is called has that Job.
pub proof fn lemma_flight_has_the_job(flights: Seq<FlightModel>, job: Seq<char>)
    ensures
        0 <= flight_of(flights, job) < flights.len() ==> flights[flight_of(flights, job)].job
            == job,
    decreases flights.len(),
{
    if flights.len() > 0 && flights[0].job != job {
        lemma_flight_has_the_job(flights.drop_first(), job);
        lemma_flight_of_is_natural(flights.drop_first(), job);
    }
}

/// A place in a list is never negative.
proof fn lemma_flight_of_is_natural(flights: Seq<FlightModel>, job: Seq<char>)
    ensures
        flight_of(flights, job) >= 0,
    decreases flights.len(),
{
    if flights.len() > 0 && flights[0].job != job {
        lemma_flight_of_is_natural(flights.drop_first(), job);
    }
}

/// A node whose work is done counts as done, or fails for the reason that the work gives; a
/// node whose Job ended goes on to that work, or fails for the reason that the Job gives.
/// Nothing else of the account changes.
pub proof fn law_a_landing_settles_its_node(l: Ledger, k: int, reason: Seq<char>)
    ensures
        0 <= k < l.finishing.len() ==> finished_well(l, k).succeeded == l.succeeded.push(
            l.finishing[k],
        ) && finished_well(l, k).failed == l.failed && finished_well(l, k).finishing
            == l.finishing.remove(k) && finished_well(l, k).flights == l.flights,
        0 <= k < l.finishing.len() ==> finished_badly(l, k, reason).failed == l.failed.push(
            (l.finishing[k], reason),
        ) && finished_badly(l, k, reason).succeeded == l.succeeded && finished_badly(
            l,
            k,
            reason,
        ).finishing == l.finishing.remove(k),
        0 <= k < l.flights.len() ==> flight_finishing(l, k).finishing == l.finishing.push(
            l.flights[k].at,
        ) && flight_finishing(l, k).flights == l.flights.remove(k) && flight_finishing(l, k).failed
            == l.failed,
        0 <= k < l.flights.len() ==> flight_failed(l, k, reason).failed == l.failed.push(
            (l.flights[k].at, reason),
        ) && flight_failed(l, k, reason).flights == l.flights.remove(k) && flight_failed(
            l,
            k,
            reason,
        ).finishing == l.finishing,
{
}

/// A node that is being finished is found by its place.
pub proof fn law_a_finishing_node_is_found(finishing: Seq<int>, at: int, k: int)
    requires
        0 <= k < finishing.len(),
        finishing[k] == at,
        forall|j: int| 0 <= j < k ==> #[trigger] finishing[j] != at,
    ensures
        finishing_of(finishing, at) == k,
    decreases k,
{
    if k > 0 {
        let rest = finishing.drop_first();
        assert(finishing[0] != at);
        assert forall|j: int| 0 <= j < k - 1 implies #[trigger] rest[j] != at by {
            assert(rest[j] == finishing[j + 1]);
        }
        law_a_finishing_node_is_found(rest, at, k - 1);
    }
}

} // verus!
