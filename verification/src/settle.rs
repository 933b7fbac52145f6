//! Waiting for the eligible nodes to settle.
//!
//! The labels a selector matches are written per node by an add-on that is itself still
//! starting, and they arrive one node at a time, so a single unchanged poll is not
//! convergence: it misses a node labelled just after it.

use crate::text;
use vstd::prelude::*;

verus! {

/// The nanoseconds of a second.
pub const NANOS: u64 = 1_000_000_000;

/// The whole seconds between two moments, each given in nanoseconds since the run
/// started; none where the second is not after the first.
pub open spec fn secs_between(since: int, now: int) -> int {
    if now > since {
        (now - since) / 1_000_000_000
    } else {
        0
    }
}

/// The whole seconds between two moments.
pub fn elapsed_secs(since: u64, now: u64) -> (r: u64)
    ensures
        r == secs_between(since as int, now as int),
{
    if now > since {
        (now - since) / NANOS
    } else {
        0
    }
}

/// A look at the eligible nodes: their names, sorted, and when it was taken.
pub ghost struct Look {
    pub names: Seq<Seq<char>>,
    pub now: int,
}

/// What is known of the eligible nodes: the last names seen and since when they have been
/// the same.
pub ghost struct SettleState {
    pub previous: Option<Seq<Seq<char>>>,
    pub since: int,
}

/// One more look.
pub open spec fn looked(state: SettleState, look: Look) -> SettleState {
    if state.previous == Some(look.names) {
        state
    } else {
        SettleState { previous: Some(look.names), since: look.now }
    }
}

/// Where a sequence of looks leads.
pub open spec fn looked_all(looks: Seq<Look>) -> SettleState
    decreases looks.len(),
{
    if looks.len() == 0 {
        SettleState { previous: None, since: 0 }
    } else {
        looked(looked_all(looks.drop_last()), looks.last())
    }
}

/// Whether the wait for nodes is over.
pub open spec fn is_expired(start: int, wait_secs: u64, now: int) -> bool {
    secs_between(start, now) >= wait_secs
}

/// Whether the set has stayed unchanged long enough. Without a wait there is nothing to
/// settle.
pub open spec fn is_settled(state: SettleState, wait_secs: u64, settle_secs: u64, now: int) -> bool {
    wait_secs == 0 || secs_between(state.since, now) >= settle_secs
}

/// What to do about the eligible nodes.
#[derive(Debug, Clone, Copy, PartialEq, Eq, Structural)]
pub enum SettleStep {
    /// Take them.
    Accept,
    /// Look again after a while; whether the set changed since the last look.
    Wait { changed: bool },
    /// There are none, and the wait is over.
    Empty,
}

/// What is done about the eligible nodes after a look at them.
pub open spec fn step_for(
    start: int,
    wait_secs: u64,
    settle_secs: u64,
    before: SettleState,
    look: Look,
) -> SettleStep {
    let expired = is_expired(start, wait_secs, look.now);
    let settled = is_settled(looked(before, look), wait_secs, settle_secs, look.now);
    let changed = before.previous != Some(look.names);
    if look.names.len() > 0 {
        if expired || settled {
            SettleStep::Accept
        } else {
            SettleStep::Wait { changed }
        }
    } else if expired {
        SettleStep::Empty
    } else {
        SettleStep::Wait { changed }
    }
}

/// The wait for the eligible nodes to settle.
#[derive(Debug)]
pub struct Settling {
    start: u64,
    wait_secs: u64,
    settle_secs: u64,
    previous: Option<Vec<String>>,
    since: u64,
}

/// Whether two lists hold the same texts.
fn same_list(a: &Vec<String>, b: &Vec<String>) -> (r: bool)
    ensures
        r == (text::texts(a@) == text::texts(b@)),
{
    if a.len() != b.len() {
        assert(text::texts(a@).len() != text::texts(b@).len());
        return false;
    }
    let mut i: usize = 0;
    while i < a.len()
        invariant
            i <= a@.len(),
            a@.len() == b@.len(),
            forall|j: int| 0 <= j < i ==> (#[trigger] a@[j])@ == b@[j]@,
        decreases a@.len() - i,
    {
        if !text::same(a[i].as_str(), b[i].as_str()) {
            assert(text::texts(a@)[i as int] != text::texts(b@)[i as int]);
            return false;
        }
        i = i + 1;
    }
    assert(text::texts(a@) =~= text::texts(b@));
    true
}

impl Settling {
    /// When the wait started.
    pub closed spec fn start_time(self) -> int {
        self.start as int
    }

    /// How long nodes are waited for.
    pub closed spec fn wait(self) -> u64 {
        self.wait_secs
    }

    /// How long the set must stay unchanged.
    pub closed spec fn settle(self) -> u64 {
        self.settle_secs
    }

    /// What is known of the eligible nodes.
    pub closed spec fn state(self) -> SettleState {
        SettleState {
            previous: match self.previous {
                Some(names) => Some(text::texts(names@)),
                None => None,
            },
            since: self.since as int,
        }
    }

    /// A wait that starts now.
    pub fn new(start: u64, wait_secs: u64, settle_secs: u64) -> (r: Self)
        ensures
            r.start_time() == start,
            r.wait() == wait_secs,
            r.settle() == settle_secs,
            r.state() == looked_all(Seq::empty()),
    {
        Settling { start, wait_secs, settle_secs, previous: None, since: 0 }
    }

    /// Takes one look at the eligible nodes, by their names.
    pub fn look(&mut self, names: Vec<String>, now: u64) -> (r: SettleStep)
        ensures
            final(self).start_time() == old(self).start_time(),
            final(self).wait() == old(self).wait(),
            final(self).settle() == old(self).settle(),
            final(self).state() == looked(
                old(self).state(),
                Look { names: text::texts(names@), now: now as int },
            ),
            r == step_for(
                old(self).start_time(),
                old(self).wait(),
                old(self).settle(),
                old(self).state(),
                Look { names: text::texts(names@), now: now as int },
            ),
    {
        let any: bool = names.len() > 0;
        let changed: bool = match &self.previous {
            Some(previous) => !same_list(previous, &names),
            None => true,
        };
        if changed {
            self.previous = Some(names);
            self.since = now;
        }
        let expired: bool = elapsed_secs(self.start, now) >= self.wait_secs;
        let settled: bool = self.wait_secs == 0 || elapsed_secs(self.since, now)
            >= self.settle_secs;
        if any {
            if expired || settled {
                SettleStep::Accept
            } else {
                SettleStep::Wait { changed }
            }
        } else if expired {
            SettleStep::Empty
        } else {
            SettleStep::Wait { changed }
        }
    }
}

/// The names have been the same since some look, and that look's time is remembered.
proof fn lemma_unchanged(looks: Seq<Look>)
    requires
        looks.len() > 0,
    ensures
        exists|k: int| #[trigger] unchanged_since(looks, k) && looked_all(looks).since == looks[k].now,
        looked_all(looks).previous == Some(looks.last().names),
    decreases looks.len(),
{
    let before = looks.drop_last();
    let last = looks.len() - 1;
    if before.len() > 0 && looked_all(before).previous == Some(looks.last().names) {
        lemma_unchanged(before);
        let k = choose|k: int| #[trigger] unchanged_since(before, k) && looked_all(before).since
            == before[k].now;
        assert forall|j: int| k <= j < looks.len() implies (#[trigger] looks[j]).names
            == looks.last().names by {
            if j < last {
                assert(before[j].names == before.last().names);
            }
        }
        assert(looks[k] == before[k]);
        assert(unchanged_since(looks, k));
    } else {
        assert(unchanged_since(looks, last));
    }
}

/// Every look since the `k`-th saw what the last one saw.
pub open spec fn unchanged_since(looks: Seq<Look>, k: int) -> bool {
    &&& 0 <= k < looks.len()
    &&& forall|j: int| k <= j < looks.len() ==> (#[trigger] looks[j]).names == looks.last().names
}

/// A set that is taken before the wait is over has been seen unchanged for as long as it
/// must settle.
pub proof fn law_an_accepted_set_has_settled(looks: Seq<Look>, wait_secs: u64, settle_secs: u64)
    requires
        looks.len() > 0,
        wait_secs > 0,
        is_settled(looked_all(looks), wait_secs, settle_secs, looks.last().now),
    ensures
        exists|k: int| #[trigger] unchanged_since(looks, k) && secs_between(
            looks[k].now,
            looks.last().now,
        ) >= settle_secs,
{
    lemma_unchanged(looks);
}

/// A set of names that has stayed the same for as long as it must settle is accepted, and one
/// that nothing is waited for is accepted at once.
pub proof fn law_a_steady_set_is_accepted(
    looks: Seq<Look>,
    k: int,
    wait_secs: u64,
    settle_secs: u64,
)
    requires
        unchanged_since(looks, k),
        forall|i: int, j: int|
            0 <= i < j < looks.len() ==> (#[trigger] looks[i]).now <= (#[trigger] looks[j]).now,
        looks.last().now - looks[k].now >= settle_secs * 1_000_000_000,
    ensures
        is_settled(looked_all(looks), wait_secs, settle_secs, looks.last().now),
{
    lemma_since_is_early(looks, k);
    let since = looked_all(looks).since;
    let now = looks.last().now;
    if settle_secs > 0 {
        assert((now - since) / 1_000_000_000 >= settle_secs) by (nonlinear_arith)
            requires
                now - since >= settle_secs * 1_000_000_000,
        ;
    }
}

/// Names that have not changed since a look are remembered from that look or an earlier one.
proof fn lemma_since_is_early(looks: Seq<Look>, k: int)
    requires
        unchanged_since(looks, k),
        forall|i: int, j: int|
            0 <= i < j < looks.len() ==> (#[trigger] looks[i]).now <= (#[trigger] looks[j]).now,
    ensures
        looked_all(looks).since <= looks[k].now,
        looked_all(looks).previous == Some(looks.last().names),
    decreases looks.len(),
{
    let before = looks.drop_last();
    if k < looks.len() - 1 {
        assert(looks[k].names == looks.last().names);
        assert(looks[looks.len() - 2].names == looks.last().names);
        assert(before.last() == looks[looks.len() - 2]);
        assert forall|j: int| k <= j < before.len() implies (#[trigger] before[j]).names
            == before.last().names by {
            assert(before[j] == looks[j]);
        }
        assert forall|i: int, j: int| 0 <= i < j < before.len() implies (#[trigger] before[i]).now
            <= (#[trigger] before[j]).now by {
            assert(before[i] == looks[i]);
            assert(before[j] == looks[j]);
        }
        lemma_since_is_early(before, k);
        assert(before[k] == looks[k]);
    } else if before.len() > 0 {
        lemma_unchanged(before);
        let e = choose|e: int| #[trigger] unchanged_since(before, e) && looked_all(before).since
            == before[e].now;
        assert(before[e] == looks[e]);
        assert(looks[e].now <= looks[looks.len() - 1].now);
    }
}

/// Every change of the names starts the settling anew.
pub proof fn law_a_change_starts_anew(looks: Seq<Look>, look: Look)
    requires
        looks.len() > 0,
        look.names != looks.last().names,
    ensures
        looked_all(looks.push(look)).since == look.now,
{
    lemma_unchanged(looks);
    assert(looks.push(look).drop_last() =~= looks);
}

/// A wait is over once its seconds have passed, and not before.
pub proof fn law_a_wait_ends_with_its_seconds(start: int, wait_secs: u64, now: int)
    requires
        now >= start,
    ensures
        is_expired(start, wait_secs, now) <==> now - start >= wait_secs * 1_000_000_000,
{
    assert((now - start) / 1_000_000_000 >= wait_secs <==> now - start >= wait_secs * 1_000_000_000)
        by (nonlinear_arith);
}

/// Nodes are taken only where there are any, and only once they have settled or the wait is
/// over; none are given up on only once the wait is over; and otherwise they are looked at
/// again.
pub proof fn law_a_wait_ends_in_one_of_two_ways(
    looks: Seq<Look>,
    look: Look,
    start: int,
    wait_secs: u64,
    settle_secs: u64,
)
    requires
        look.now >= start,
    ensures
        ({
            let step = step_for(start, wait_secs, settle_secs, looked_all(looks), look);
            let over = look.now - start >= wait_secs * 1_000_000_000;
            let settled = is_settled(
                looked_all(looks.push(look)),
                wait_secs,
                settle_secs,
                look.now,
            );
            &&& step == SettleStep::Accept <==> look.names.len() > 0 && (over || settled)
            &&& step == SettleStep::Empty <==> look.names.len() == 0 && over
            &&& step matches SettleStep::Wait { changed } ==> !over && (changed <==> looks.len()
                == 0 || looks.last().names != look.names)
        }),
{
    law_a_wait_ends_with_its_seconds(start, wait_secs, look.now);
    assert(looks.push(look).drop_last() =~= looks);
    if looks.len() > 0 {
        lemma_unchanged(looks);
    }
}

} // verus!
