//! What a run says of itself: how it is going, and how it ended.

use crate::objects::Node;
use crate::order;
use crate::settle;
use crate::text;
use vstd::prelude::*;
use vstd::string::*;

verus! {

/// A node the run could not finish, and what stopped it. The reason is kept so
/// that the summary at the end can name it, not only the log.
#[derive(Debug)]
pub struct NodeFailure {
    pub node: String,
    pub reason: String,
}

/// The name of a node, as a failure says it.
pub open spec fn name_or_unknown(node: Node) -> Seq<char> {
    match node.name {
        Some(name) => name@,
        None => "<unknown>"@,
    }
}

/// The names of the nodes that failed.
pub open spec fn failed_names(failed: Seq<NodeFailure>) -> Seq<Seq<char>> {
    failed.map_values(|f: NodeFailure| f.node@)
}

/// The failures at a list of places, one to a line.
pub open spec fn failure_lines(failed: Seq<NodeFailure>, picked: Seq<int>) -> Seq<char>
    decreases picked.len(),
{
    if picked.len() == 0 {
        Seq::empty()
    } else {
        let f = failed[picked.last()];
        failure_lines(failed, picked.drop_last()) + "\n  "@ + f.node@ + ": "@ + f.reason@
    }
}

/// How a run that failed on some nodes ends: each of them once, sorted by name, with the
/// first thing that happened to it, and where to read on.
pub open spec fn summary_text(
    failed: Seq<NodeFailure>,
    namespace: Seq<char>,
    owner_label: Seq<char>,
    owner_value: Seq<char>,
) -> Seq<char> {
    let picked = order::ordered_firsts(failed_names(failed));
    text::decimal(picked.len()) + " node(s) failed:"@ + failure_lines(failed, picked)
        + "\nThe full logs of the per-node Jobs that are still around: kubectl logs -n "@
        + namespace + " -l "@ + owner_label + "="@ + owner_value + " --all-containers --prefix"@
}

/// The run's last word, and for anyone who ran `helm install` the only one they will see.
/// Two entries mean two paths reported one node; the first is what happened.
pub fn summarize(
    failed: Vec<NodeFailure>,
    namespace: &str,
    owner_label: &str,
    owner_value: &str,
) -> (r: String)
    ensures
        r@ == summary_text(failed@, namespace@, owner_label@, owner_value@),
{
    let mut names: Vec<String> = Vec::new();
    let mut i: usize = 0;
    while i < failed.len()
        invariant
            i <= failed@.len(),
            names@.len() == i,
            forall|j: int| 0 <= j < i ==> (#[trigger] names@[j])@ == failed@[j].node@,
        decreases failed@.len() - i,
    {
        names.push(failed[i].node.clone());
        i = i + 1;
    }
    assert(text::texts(names@) =~= failed_names(failed@));
    let picked: Vec<usize> = order::firsts_in_order(&names);
    let ghost places = order::positions(picked@);
    let mut summary: String = text::number(picked.len() as u64).concat(" node(s) failed:");
    let ghost head = summary@;
    let mut k: usize = 0;
    assert(head + failure_lines(failed@, places.take(0)) =~= head);
    while k < picked.len()
        invariant
            k <= picked@.len(),
            places == order::positions(picked@),
            order::picks_firsts(failed_names(failed@), places),
            summary@ == head + failure_lines(failed@, places.take(k as int)),
        decreases picked@.len() - k,
    {
        let at: usize = picked[k];
        assert(places[k as int] == at);
        let ghost before = summary@;
        let ghost done = failure_lines(failed@, places.take(k as int));
        summary.append("\n  ");
        summary.append(failed[at].node.as_str());
        summary.append(": ");
        summary.append(failed[at].reason.as_str());
        proof {
            let next = places.take(k + 1);
            assert(next.drop_last() =~= places.take(k as int));
            assert(next.last() == at);
            let f = failed@[at as int];
            assert(summary@ =~= head + (done + "\n  "@ + f.node@ + ": "@ + f.reason@));
        }
        k = k + 1;
    }
    assert(places.take(places.len() as int) =~= places);
    summary.append("\nThe full logs of the per-node Jobs that are still around: kubectl logs -n ");
    summary.append(namespace);
    summary.append(" -l ");
    summary.append(owner_label);
    summary.append("=");
    summary.append(owner_value);
    summary.append(" --all-containers --prefix");
    summary
}

/// The summary names each node that failed once, sorted, so two runs over the same fleet
/// read the same way and none misstates how much of it is affected.
pub proof fn law_each_failed_node_is_summarized_once(failed: Seq<NodeFailure>)
    ensures
        ({
            let names = failed_names(failed);
            let picked = order::ordered_firsts(names);
            &&& forall|i: int, j: int|
                0 <= i < j < picked.len() ==> text::before(
                    names[#[trigger] picked[i]],
                    names[#[trigger] picked[j]],
                )
            &&& forall|k: int| 0 <= k < failed.len() ==> #[trigger] order::has_pick(names, picked, k)
            &&& forall|i: int, k: int|
                0 <= i < picked.len() && 0 <= k < #[trigger] picked[i] ==> #[trigger] names[k]
                    != names[picked[i]]
        }),
{
    order::law_every_list_has_its_firsts(failed_names(failed));
}

/// How many nodes stand where.
#[derive(Debug, Clone, Copy, PartialEq, Eq, Structural)]
pub struct Tally {
    pub succeeded: usize,
    pub failed: usize,
    pub in_flight: usize,
    pub finishing: usize,
    pub queued: usize,
}

/// Saying an unchanged tally every poll buries everything else in the log, and Helm prints
/// that log as a single line. Seconds.
pub const PROGRESS_HEARTBEAT_SECS: u64 = 60;

/// What was last said of how a run is going, and when, in nanoseconds since it started.
#[derive(Debug)]
pub struct Progress {
    pub said: Option<Tally>,
    pub said_at: Option<u64>,
}

impl Default for Progress {
    fn default() -> (r: Self)
        ensures
            r.said is None,
            r.said_at is None,
    {
        Progress { said: None, said_at: None }
    }
}

/// A tally as the log says it.
pub open spec fn tally_text(t: Tally) -> Seq<char> {
    "progress: "@ + text::decimal(t.succeeded as nat) + " succeeded, "@ + text::decimal(
        t.failed as nat,
    ) + " failed, "@ + text::decimal(t.in_flight as nat) + " in-flight, "@ + text::decimal(
        t.finishing as nat,
    ) + " finishing, "@ + text::decimal(t.queued as nat) + " queued"@
}

impl Progress {
    /// Whether a tally is worth saying: it changed, or nothing was said for a while.
    pub open spec fn is_worth_saying(self, tally: Tally, now: u64) -> bool {
        ||| self.said != Some(tally)
        ||| self.said_at is None
        ||| settle::secs_between(self.said_at->0 as int, now as int) >= PROGRESS_HEARTBEAT_SECS
    }

    /// Whether a tally is worth saying.
    pub fn worth_saying(&self, tally: &Tally, now: u64) -> (r: bool)
        ensures
            r == self.is_worth_saying(*tally, now),
    {
        let same: bool = match &self.said {
            Some(said) => *said == *tally,
            None => false,
        };
        if !same {
            return true;
        }
        match self.said_at {
            Some(at) => settle::elapsed_secs(at, now) >= PROGRESS_HEARTBEAT_SECS,
            None => true,
        }
    }

    /// Says a tally, where it is worth saying.
    pub fn report(&mut self, tally: Tally, now: u64) -> (r: Option<String>)
        ensures
            if old(self).is_worth_saying(tally, now) {
                &&& final(self).said == Some(tally)
                &&& final(self).said_at == Some(now)
                &&& text::opt_text(r) == Some(tally_text(tally))
            } else {
                *final(self) == *old(self) && r is None
            },
    {
        if !self.worth_saying(&tally, now) {
            return None;
        }
        self.said = Some(tally);
        self.said_at = Some(now);
        Some(
            "progress: ".to_string().concat(text::number(tally.succeeded as u64).as_str()).concat(
                " succeeded, ",
            ).concat(text::number(tally.failed as u64).as_str()).concat(" failed, ").concat(
                text::number(tally.in_flight as u64).as_str(),
            ).concat(" in-flight, ").concat(text::number(tally.finishing as u64).as_str()).concat(
                " finishing, ",
            ).concat(text::number(tally.queued as u64).as_str()).concat(" queued"),
        )
    }
}

/// Every line of a summary is there: what stopped a picked node stands in it as it was said.
pub proof fn law_every_picked_failure_has_its_line(failed: Seq<NodeFailure>, picked: Seq<int>, at: int)
    requires
        0 <= at < picked.len(),
    ensures
        exists|head: Seq<char>, tail: Seq<char>|
            failure_lines(failed, picked) == #[trigger] (head + ("\n  "@ + failed[picked[at]].node@
                + ": "@ + failed[picked[at]].reason@) + tail),
    decreases picked.len(),
{
    let rest = picked.drop_last();
    let before = failure_lines(failed, rest);
    let f = failed[picked.last()];
    let line = "\n  "@ + f.node@ + ": "@ + f.reason@;
    let all = failure_lines(failed, picked);
    assert(all =~= before + line);
    if at == picked.len() - 1 {
        assert(all =~= before + line + Seq::<char>::empty());
    } else {
        law_every_picked_failure_has_its_line(failed, rest, at);
        assert(rest[at] == picked[at]);
        let mine = "\n  "@ + failed[picked[at]].node@ + ": "@ + failed[picked[at]].reason@;
        let (head, tail) = choose|head: Seq<char>, tail: Seq<char>|
            before == #[trigger] (head + mine + tail);
        assert(all =~= head + mine + (tail + line));
    }
}

/// A tally is said when it differs from the last one that was said, and again once the last
/// one was said long enough ago, and not in between.
pub proof fn law_progress_is_said_when_it_changes(progress: Progress, tally: Tally, now: u64)
    ensures
        progress.said != Some(tally) ==> progress.is_worth_saying(tally, now),
        progress.said == Some(tally) && progress.said_at is Some && now >= progress.said_at->0
            ==> (progress.is_worth_saying(tally, now) <==> now - progress.said_at->0 >= 60
            * 1_000_000_000),
{
}

} // verus!
