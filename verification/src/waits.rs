//! What a run waits for on a node: that its labels hold, that its runtime serves what
//! was installed, that it is Ready. And the one thing it only warns about, the kubelet's
//! request timeout.

use crate::guarded;
use crate::json;
use crate::json::JsonModel;
use crate::labels;
use crate::labels::StringMap;
use crate::nodes;
use crate::nodes::HandlerVerdict;
use crate::objects::{ApiError, Node};
use crate::text;
use crate::writes;
use vstd::prelude::*;
use vstd::string::*;

verus! {

/// A kubelet re-registering after a CRI restart republishes its cached labels over
/// ours, so one confirmation proves nothing. Six spaced ones outlive a status-update
/// period.
pub const LABEL_STABILITY_CHECKS: u32 = 6;

/// Seconds between two looks at the labels.
pub const LABEL_CHECK_INTERVAL_SECS: u64 = 2;

/// How often labels that do not hold are written again.
pub const LABEL_APPLY_ATTEMPTS: u32 = 12;

/// The kubelet republishes node status every ~10s, and `runtimeHandlers` trails a
/// runtime restart by a sync or two. Seconds.
pub const HANDLER_WAIT_SECS: u64 = 120;

/// Seconds between two looks at a node that is waited for.
pub const NODE_POLL_SECS: u64 = 2;

/// The kubelet may be unreachable through the apiserver proxy, and the check using
/// this is advisory, so it must not hold up the queue behind it. Seconds.
pub const KUBELET_PROBE_TIMEOUT_SECS: u64 = 15;

/// How far the watch over a node's labels has come.
pub ghost enum WatchState {
    /// The labels were written for the `attempt`-th time and seen `stable` times since.
    Watching { attempt: int, stable: int },
    /// The labels are holding.
    Held,
    /// Something keeps removing them.
    GaveUp,
}

/// One more look at the labels.
pub open spec fn watched(state: WatchState, good: bool) -> WatchState {
    match state {
        WatchState::Watching { attempt, stable } => if good {
            if stable + 1 >= LABEL_STABILITY_CHECKS {
                WatchState::Held
            } else {
                WatchState::Watching { attempt, stable: stable + 1 }
            }
        } else if attempt < LABEL_APPLY_ATTEMPTS {
            WatchState::Watching { attempt: attempt + 1, stable: 0 }
        } else {
            WatchState::GaveUp
        },
        done => done,
    }
}

/// Where a sequence of looks leads.
pub open spec fn watched_all(looks: Seq<bool>) -> WatchState
    decreases looks.len(),
{
    if looks.len() == 0 {
        WatchState::Watching { attempt: 1, stable: 0 }
    } else {
        watched(watched_all(looks.drop_last()), looks.last())
    }
}

/// While the watch goes on, its last looks since the labels were written were good, and
/// no attempt has taken more looks than it may.
proof fn lemma_watching(looks: Seq<bool>)
    ensures
        watched_all(looks) matches WatchState::Watching { attempt, stable } ==> {
            &&& 1 <= attempt <= LABEL_APPLY_ATTEMPTS
            &&& 0 <= stable < LABEL_STABILITY_CHECKS
            &&& stable <= looks.len() <= (attempt - 1) * 6 + stable
            &&& forall|i: int| looks.len() - stable <= i < looks.len() ==> #[trigger] looks[i]
        },
    decreases looks.len(),
{
    if looks.len() > 0 {
        let before = looks.drop_last();
        lemma_watching(before);
        if let WatchState::Watching { attempt, stable } = watched_all(looks) {
            assert forall|i: int| looks.len() - stable <= i < looks.len() implies #[trigger] looks[i] by {
                if i < looks.len() - 1 {
                    assert(before[i]);
                }
            }
        }
    }
}

/// Labels are taken for holding only after as many consecutive looks found them in
/// place as it takes.
pub proof fn law_labels_hold_only_when_seen_to_hold(looks: Seq<bool>)
    requires
        looks.len() > 0,
        watched_all(looks.drop_last()) is Watching,
        watched_all(looks) is Held,
    ensures
        looks.len() >= LABEL_STABILITY_CHECKS,
        forall|i: int|
            looks.len() - LABEL_STABILITY_CHECKS <= i < looks.len() ==> #[trigger] looks[i],
{
    let before = looks.drop_last();
    lemma_watching(before);
    assert forall|i: int|
        looks.len() - LABEL_STABILITY_CHECKS <= i < looks.len() implies #[trigger] looks[i] by {
        if i < looks.len() - 1 {
            assert(before[i]);
        }
    }
}

/// The watch ends: no node is looked at more often than every attempt allows.
pub proof fn law_the_watch_ends(looks: Seq<bool>)
    requires
        looks.len() >= LABEL_APPLY_ATTEMPTS * LABEL_STABILITY_CHECKS,
    ensures
        !(watched_all(looks) is Watching),
{
    lemma_watching(looks);
}

/// Labels that stay in place are taken for holding, however often they drifted before.
pub proof fn law_steady_labels_are_accepted(looks: Seq<bool>)
    requires
        watched_all(looks) is Watching,
    ensures
        watched_all(looks + seq![true, true, true, true, true, true]) is Held,
{
    lemma_watching(looks);
    let one = looks.push(true);
    let two = one.push(true);
    let three = two.push(true);
    let four = three.push(true);
    let five = four.push(true);
    let six = five.push(true);
    assert(one.drop_last() =~= looks);
    assert(two.drop_last() =~= one);
    assert(three.drop_last() =~= two);
    assert(four.drop_last() =~= three);
    assert(five.drop_last() =~= four);
    assert(six.drop_last() =~= five);
    assert(watched_all(one) == watched(watched_all(looks), true));
    assert(watched_all(two) == watched(watched_all(one), true));
    assert(watched_all(three) == watched(watched_all(two), true));
    assert(watched_all(four) == watched(watched_all(three), true));
    assert(watched_all(five) == watched(watched_all(four), true));
    assert(watched_all(six) == watched(watched_all(five), true));
    assert(looks + seq![true, true, true, true, true, true] =~= six);
}

/// Whether a node carries what a list of writes leaves.
pub open spec fn carries(
    on_node: Map<Seq<char>, Seq<char>>,
    list: Seq<(Seq<char>, Option<Seq<char>>)>,
) -> bool {
    forall|i: int|
        0 <= i < list.len() ==> labels::lookup(on_node, (#[trigger] list[i]).0) == list[i].1
}

/// Whether a look found the labels in place. A node that could not be read, or that is
/// not the one that was selected, is no confirmation.
pub open spec fn good_look(
    fetched: Result<Node, ApiError>,
    expected_uid: Seq<char>,
    list: Seq<(Seq<char>, Option<Seq<char>>)>,
) -> bool {
    match fetched {
        Ok(node) => text::opt_text(node.uid) == Some(expected_uid) && carries(
            labels::or_empty(node.labels),
            list,
        ),
        Err(_) => false,
    }
}

/// Whether a node carries what a list of writes leaves.
fn all_in_place(on_node: &Option<StringMap>, updates: &Vec<(String, Option<String>)>) -> (r: bool)
    ensures
        r == carries(labels::or_empty(*on_node), labels::writes(updates@)),
{
    let ghost all = labels::writes(updates@);
    let ghost map = labels::or_empty(*on_node);
    let mut i: usize = 0;
    while i < updates.len()
        invariant
            i <= updates@.len(),
            all == labels::writes(updates@),
            map == labels::or_empty(*on_node),
            forall|j: int|
                0 <= j < i ==> labels::lookup(map, (#[trigger] all[j]).0) == all[j].1,
        decreases updates@.len() - i,
    {
        let held: Option<&str> = nodes::get_from(on_node, updates[i].0.as_str());
        let same: bool = match (held, &updates[i].1) {
            (Some(now), Some(wanted)) => text::same(now, wanted.as_str()),
            (None, None) => true,
            _ => false,
        };
        assert(all[i as int] == (updates@[i as int].0@, text::opt_text(updates@[i as int].1)));
        if !same {
            return false;
        }
        i = i + 1;
    }
    true
}

/// What to do next about a node's labels.
#[derive(Debug)]
pub enum WatchStep {
    /// Write them again, and look after a while.
    Apply,
    /// Look again after a while.
    Check,
    /// Nothing more: they are holding.
    Held,
    /// Nothing more: they do not hold, and why.
    Fail(String),
}

/// What is said when labels do not hold.
pub open spec fn drift_text(
    node: Seq<char>,
    list: Seq<(Seq<char>, Option<Seq<char>>)>,
) -> Seq<char> {
    "node "@ + node + " did not hold "@ + guarded::said_of(list) + " for "@ + text::decimal(
        LABEL_STABILITY_CHECKS as nat,
    ) + " consecutive checks over "@ + text::decimal(LABEL_APPLY_ATTEMPTS as nat)
        + " attempts; something on the node keeps removing them, and workloads would not be selected there"@
}

/// The watch over a node's labels.
///
/// On k3s and RKE2 a CRI restart takes the kubelet with it, and a kubelet coming back
/// re-registers its node with cached labels, silently undoing ours. `Ready` does not
/// rule that out, since the observation can predate the kubelet's own restart, so the
/// labels have to be seen to hold.
#[derive(Debug)]
pub struct LabelWatch {
    node: String,
    expected_uid: String,
    updates: Vec<(String, Option<String>)>,
    attempt: u32,
    stable: u32,
}

impl LabelWatch {
    /// The node's name.
    pub closed spec fn node_text(self) -> Seq<char> {
        self.node@
    }

    /// The UID that the node was selected as.
    pub closed spec fn uid_text(self) -> Seq<char> {
        self.expected_uid@
    }

    /// The writes whose outcome is watched.
    pub closed spec fn wanted(self) -> Seq<(Seq<char>, Option<Seq<char>>)> {
        labels::writes(self.updates@)
    }

    /// How far the watch has come.
    pub closed spec fn state(self) -> WatchState {
        WatchState::Watching { attempt: self.attempt as int, stable: self.stable as int }
    }

    #[verifier::type_invariant]
    spec fn wf(self) -> bool {
        1 <= self.attempt <= LABEL_APPLY_ATTEMPTS && self.stable < LABEL_STABILITY_CHECKS
    }

    /// A watch that has not started. The labels are to be written first.
    pub fn new(node: &str, expected_uid: &str, updates: Vec<(String, Option<String>)>) -> (r: Self)
        ensures
            r.node_text() == node@,
            r.uid_text() == expected_uid@,
            r.wanted() == labels::writes(updates@),
            r.state() == watched_all(Seq::empty()),
    {
        LabelWatch {
            node: node.to_string(),
            expected_uid: expected_uid.to_string(),
            updates,
            attempt: 1,
            stable: 0,
        }
    }

    /// What a look at the labels leads to.
    pub open spec fn look_gives(
        self,
        fetched: Result<Node, ApiError>,
        after: LabelWatch,
        step: WatchStep,
    ) -> bool {
        let good = good_look(fetched, self.uid_text(), self.wanted());
        &&& after.node_text() == self.node_text()
        &&& after.uid_text() == self.uid_text()
        &&& after.wanted() == self.wanted()
        &&& match watched(self.state(), good) {
            WatchState::Watching { attempt, stable } => {
                &&& after.state() == watched(self.state(), good)
                &&& if good {
                    step is Check
                } else {
                    step is Apply
                }
            },
            WatchState::Held => step is Held,
            WatchState::GaveUp => step matches WatchStep::Fail(why) && why@ == drift_text(
                self.node_text(),
                self.wanted(),
            ),
        }
    }

    /// Takes one look at the labels.
    pub fn observe(&mut self, fetched: Result<Node, ApiError>) -> (r: WatchStep)
        ensures
            old(self).look_gives(fetched, *final(self), r),
    {
        proof {
            use_type_invariant(&*self);
        }
        let good: bool = match &fetched {
            Ok(node) => {
                let same: bool = match &node.uid {
                    Some(uid) => text::same(uid.as_str(), self.expected_uid.as_str()),
                    None => false,
                };
                same && all_in_place(&node.labels, &self.updates)
            },
            Err(_) => false,
        };
        if good {
            if self.stable + 1 >= LABEL_STABILITY_CHECKS {
                return WatchStep::Held;
            }
            self.stable = self.stable + 1;
            return WatchStep::Check;
        }
        if self.attempt < LABEL_APPLY_ATTEMPTS {
            self.stable = 0;
            self.attempt = self.attempt + 1;
            return WatchStep::Apply;
        }
        WatchStep::Fail(
            "node ".to_string().concat(self.node.as_str()).concat(" did not hold ").concat(
                writes::describe_updates(self.updates.as_slice()).as_str(),
            ).concat(" for ").concat(text::number(LABEL_STABILITY_CHECKS as u64).as_str()).concat(
                " consecutive checks over ",
            ).concat(text::number(LABEL_APPLY_ATTEMPTS as u64).as_str()).concat(
                " attempts; something on the node keeps removing them, and workloads would not be selected there",
            ),
        )
    }
}

/// What to do next about something that is waited for.
#[derive(Debug)]
pub enum WaitStep {
    /// Nothing more: it has come about.
    Done,
    /// Look again after a while.
    Again,
    /// Nothing more: it has not come about, and why.
    Fail(String),
}

/// What is said when nothing has confirmed what a node serves.
pub open spec fn unconfirmed_text(
    node: Seq<char>,
    required: Seq<Seq<char>>,
    message: Seq<char>,
) -> Seq<char> {
    "could not check whether node "@ + node + " is serving "@ + text::debug_list(required)
        + " within "@ + text::decimal(HANDLER_WAIT_SECS as nat)
        + "s of its Job finishing; not labelling it, since nothing has confirmed its CRI runtime read what was installed: "@
        + guarded::unread_text(node, message)
}

/// What is said when a node serves none of what was installed.
pub open spec fn not_serving_text(node: Seq<char>, required: Seq<Seq<char>>) -> Seq<char> {
    "node "@ + node + " reports none of "@ + text::debug_list(required)
        + " among its runtime handlers "@ + text::decimal(HANDLER_WAIT_SECS as nat)
        + "s after its Job finished, so its CRI runtime is not serving the configuration that Job wrote. Check the runtime's logs for a rejected or unread configuration file; not labelling the node, since no pod asking for those handlers could run there"@
}

/// What a look at the handlers of a node leads to.
pub open spec fn handlers_give(
    node: Seq<char>,
    required: Seq<Seq<char>>,
    elapsed_secs: u64,
    fetched: Result<Node, ApiError>,
    step: WaitStep,
) -> bool {
    if required.len() == 0 {
        step is Done
    } else {
        match fetched {
            Err(error) => if elapsed_secs < HANDLER_WAIT_SECS {
                step is Again
            } else {
                step matches WaitStep::Fail(why) && why@ == unconfirmed_text(
                    node,
                    required,
                    error.message@,
                )
            },
            Ok(found) => match nodes::served_by(found) {
                None => step is Done,
                Some(served) => if nodes::serves_any(required, served) {
                    step is Done
                } else if elapsed_secs < HANDLER_WAIT_SECS {
                    step is Again
                } else {
                    step matches WaitStep::Fail(why) && why@ == not_serving_text(node, required)
                },
            },
        }
    }
}

/// What a node that is to serve one of the required handlers is waited for: it is done
/// when it serves one, when it cannot say what it serves, or when none is required. A
/// failed request is not an answer.
///
/// `.status.runtimeHandlers` is the node's own answer about what its runtime loaded, as
/// opposed to what was written and hoped it would read.
pub fn verify_handlers(
    node: &str,
    required: &[String],
    elapsed_secs: u64,
    fetched: Result<Node, ApiError>,
) -> (r: WaitStep)
    ensures
        handlers_give(node@, text::texts(required@), elapsed_secs, fetched, r),
{
    if required.len() == 0 {
        return WaitStep::Done;
    }
    let found: Node = match fetched {
        Ok(found) => found,
        Err(error) => {
            if elapsed_secs < HANDLER_WAIT_SECS {
                return WaitStep::Again;
            }
            return WaitStep::Fail(
                "could not check whether node ".to_string().concat(node).concat(
                    " is serving ",
                ).concat(text::quoted_list(required).as_str()).concat(" within ").concat(
                    text::number(HANDLER_WAIT_SECS).as_str(),
                ).concat(
                    "s of its Job finishing; not labelling it, since nothing has confirmed its CRI runtime read what was installed: ",
                ).concat(guarded::say_unread(node, error.message.as_str()).as_str()),
            );
        },
    };
    let served: Option<Vec<String>> = nodes::served_handlers(&found);
    let verdict: HandlerVerdict = match &served {
        Some(list) => nodes::handler_verdict(required, Some(list.as_slice())),
        None => nodes::handler_verdict(required, None),
    };
    match verdict {
        HandlerVerdict::NotServing => {
            if elapsed_secs < HANDLER_WAIT_SECS {
                WaitStep::Again
            } else {
                WaitStep::Fail(
                    "node ".to_string().concat(node).concat(" reports none of ").concat(
                        text::quoted_list(required).as_str(),
                    ).concat(" among its runtime handlers ").concat(
                        text::number(HANDLER_WAIT_SECS).as_str(),
                    ).concat(
                        "s after its Job finished, so its CRI runtime is not serving the configuration that Job wrote. Check the runtime's logs for a rejected or unread configuration file; not labelling the node, since no pod asking for those handlers could run there",
                    ),
                )
            }
        },
        _ => WaitStep::Done,
    }
}

/// What a look at a node says about it being ready: a node that says nothing, or that
/// could not be read, is `Unknown`.
pub open spec fn readiness(fetched: Result<Node, ApiError>) -> Seq<char> {
    match fetched {
        Ok(node) => match nodes::ready_of(node) {
            Some(status) => status,
            None => "Unknown"@,
        },
        Err(_) => "Unknown"@,
    }
}

/// What is said when a node does not become ready.
pub open spec fn not_ready_text(node: Seq<char>, timeout_secs: u64, ready: Seq<char>) -> Seq<char> {
    "node "@ + node + " did not become Ready within "@ + text::decimal(timeout_secs as nat)
        + "s of its Job finishing (last seen: "@ + ready
        + "); not labelling it, so workloads are not sent to a node whose CRI runtime may still be restarting"@
}

/// What a look at a node that is to report `Ready` leads to.
pub open spec fn readiness_gives(
    node: Seq<char>,
    timeout_secs: u64,
    elapsed_secs: u64,
    fetched: Result<Node, ApiError>,
    step: WaitStep,
) -> bool {
    if readiness(fetched) == "True"@ {
        step is Done
    } else if elapsed_secs < timeout_secs {
        step is Again
    } else {
        step matches WaitStep::Fail(why) && why@ == not_ready_text(
            node,
            timeout_secs,
            readiness(fetched),
        )
    }
}

/// What a node that is to report `Ready` is waited for.
pub fn wait_till_ready(
    node: &str,
    timeout_secs: u64,
    elapsed_secs: u64,
    fetched: Result<Node, ApiError>,
) -> (r: WaitStep)
    ensures
        readiness_gives(node@, timeout_secs, elapsed_secs, fetched, r),
{
    let ready: String = match &fetched {
        Ok(found) => match nodes::node_ready_condition(found) {
            Some(status) => status,
            None => "Unknown".to_string(),
        },
        Err(_) => "Unknown".to_string(),
    };
    if text::same(ready.as_str(), "True") {
        WaitStep::Done
    } else if elapsed_secs < timeout_secs {
        WaitStep::Again
    } else {
        WaitStep::Fail(
            "node ".to_string().concat(node).concat(" did not become Ready within ").concat(
                text::number(timeout_secs).as_str(),
            ).concat("s of its Job finishing (last seen: ").concat(ready.as_str()).concat(
                "); not labelling it, so workloads are not sent to a node whose CRI runtime may still be restarting",
            ),
        )
    }
}

/// What a JSON value holds under a name.
pub open spec fn member(value: JsonModel, name: Seq<char>) -> Option<JsonModel> {
    match value {
        JsonModel::Object(fields) => if fields.contains_key(name) {
            Some(fields[name])
        } else {
            None
        },
        _ => None,
    }
}

/// The `runtimeRequestTimeout` in a kubelet's `/configz` answer, whichever way the
/// answer spells the object it stands in.
pub open spec fn reported_timeout(configz: JsonModel) -> Option<Seq<char>> {
    let config = match member(configz, "kubeletconfig"@) {
        Some(config) => Some(config),
        None => member(configz, "kubeletConfig"@),
    };
    match config {
        Some(config) => match member(config, "runtimeRequestTimeout"@) {
            Some(JsonModel::Text(content)) => Some(content),
            _ => None,
        },
        None => None,
    }
}

/// Reads the `runtimeRequestTimeout` off a kubelet's `/configz` answer.
pub fn kubelet_runtime_request_timeout(configz: &serde_json::Value) -> (r: Option<String>)
    ensures
        text::opt_text(r) == reported_timeout(json::json_model(*configz)),
{
    let config: &serde_json::Value = match json::json_member(configz, "kubeletconfig") {
        Some(config) => config,
        None => match json::json_member(configz, "kubeletConfig") {
            Some(config) => config,
            None => {
                return None;
            },
        },
    };
    match json::json_member(config, "runtimeRequestTimeout") {
        Some(value) => match json::json_as_text(value) {
            Some(content) => Some(content.to_string()),
            None => None,
        },
        None => None,
    }
}

#[verifier::external_type_specification]
#[verifier::external_body]
pub struct ExDurationError(humantime::DurationError);

/// A decimal digit.
pub open spec fn is_digit(c: char) -> bool {
    '0' <= c && c <= '9'
}

/// A letter that the name of a unit can hold.
pub open spec fn is_unit_letter(c: char) -> bool {
    ||| 'a' <= c && c <= 'z'
    ||| 'A' <= c && c <= 'Z'
    ||| c == '\u{b5}'
}

/// The terms of a text, each up to the end of its unit: one ends where a letter is followed
/// by something else.
pub open spec fn terms(s: Seq<char>) -> Seq<Seq<char>>
    decreases s.len(),
{
    if s.len() == 0 {
        Seq::empty()
    } else {
        let before = terms(s.drop_last());
        if before.len() == 0 || (is_unit_letter(s[s.len() - 2]) && !is_unit_letter(s.last())) {
            before.push(seq![s.last()])
        } else {
            before.drop_last().push(before.last().push(s.last()))
        }
    }
}

/// Whether no unit is followed by anything.
pub open spec fn is_one_term(s: Seq<char>) -> bool {
    forall|i: int|
        0 <= i < s.len() - 1 && is_unit_letter(#[trigger] s[i]) ==> is_unit_letter(s[i + 1])
}

/// The most nanoseconds that reading a term can add up: those that it names; of one that
/// is no duration but has a number, as many as that can hold.
pub open spec fn term_nanos(term: Seq<char>) -> nat {
    match parsed_duration(term) {
        Some(parsed) => (parsed.0 * 1_000_000_000 + parsed.1) as nat,
        None => if exists|i: int| 0 <= i < term.len() && is_digit(#[trigger] term[i]) {
            u64::MAX as nat
        } else {
            0
        },
    }
}

/// The most nanoseconds that reading terms one after the other can add up.
pub open spec fn terms_nanos(list: Seq<Seq<char>>) -> nat
    decreases list.len(),
{
    if list.len() == 0 {
        0
    } else {
        terms_nanos(list.drop_last()) + term_nanos(list.last())
    }
}

/// The fewest nanoseconds that are more than a duration can hold.
pub const DURATION_NANOS: u128 = 18_446_744_073_709_551_616_000_000_000;

/// Whether the terms of a text stay within what a duration can hold. Those of every text
/// that names a duration do.
pub open spec fn fits_duration(content: Seq<char>) -> bool {
    terms_nanos(terms(content)) < DURATION_NANOS
}

/// The duration that a text names, as whole seconds and the nanoseconds beyond them;
/// nothing where it names none.
pub uninterp spec fn parsed_duration(content: Seq<char>) -> Option<(u64, u32)>;

/// `humantime::parse_duration`: the duration that a text names, given as its whole
/// seconds and the nanoseconds beyond them, which are fewer than a second. It adds up the
/// terms in turn, and panics where they come to exactly one second more than the most whole
/// seconds that a duration can hold, by nanoseconds. One term alone never does. Of several,
/// those that are refused part of the way add at most the nanoseconds that a number can
/// hold, or whole seconds, which do not panic; so it is called only with one term, or with
/// terms that stay below.
#[verifier::external_body]
fn parse_duration(content: &str) -> (r: Result<(u64, u32), humantime::DurationError>)
    requires
        is_one_term(content@) || fits_duration(content@),
    ensures
        match r {
            Ok(parsed) => parsed_duration(content@) == Some(parsed) && parsed.1 < 1_000_000_000,
            Err(_) => parsed_duration(content@) is None,
        },
{
    humantime::parse_duration(content).map(|parsed| (parsed.as_secs(), parsed.subsec_nanos()))
}

/// Every term of a text is one term, and the last ends where the text does.
proof fn lemma_terms_are_single(s: Seq<char>)
    ensures
        forall|j: int| 0 <= j < terms(s).len() ==> is_one_term(#[trigger] terms(s)[j]),
        s.len() > 0 ==> terms(s).len() > 0 && terms(s).last().len() > 0 && terms(s).last().last()
            == s.last(),
    decreases s.len(),
{
    if s.len() > 0 {
        let shorter = s.drop_last();
        let before = terms(shorter);
        lemma_terms_are_single(shorter);
        assert forall|j: int| 0 <= j < terms(s).len() implies is_one_term(
            #[trigger] terms(s)[j],
        ) by {
            if j < terms(s).len() - 1 {
                assert(terms(s)[j] == before[j]);
            } else if before.len() > 0 {
                assert(is_one_term(before[before.len() - 1]));
                assert(shorter.last() == s[s.len() - 2]);
            }
        }
    }
}

/// Whether a character is a letter that the name of a unit can hold.
fn unit_letter(c: char) -> (r: bool)
    ensures
        r == is_unit_letter(c),
{
    ('a' <= c && c <= 'z') || ('A' <= c && c <= 'Z') || c == '\u{b5}'
}

/// Parts a text into its terms.
fn split_terms(content: &str) -> (r: Vec<String>)
    ensures
        text::texts(r@) == terms(content@),
{
    let cs: Vec<char> = text::chars_of(content);
    let mut list: Vec<String> = Vec::new();
    let mut i: usize = 0;
    assert(text::texts(list@) =~= terms(content@.take(0)));
    while i < cs.len()
        invariant
            i <= cs@.len(),
            cs@ == content@,
            text::texts(list@) == terms(content@.take(i as int)),
        decreases cs@.len() - i,
    {
        let c: char = cs[i];
        let ghost before = text::texts(list@);
        proof {
            let longer = content@.take(i + 1);
            assert(longer.drop_last() =~= content@.take(i as int));
            assert(longer.last() == c);
            assert(i > 0 ==> longer[longer.len() - 2] == cs@[i - 1]);
            lemma_terms_are_single(content@.take(i as int));
        }
        let cut: bool = i > 0 && unit_letter(cs[i - 1]) && !unit_letter(c);
        let mut term: String = String::new();
        assert(term@ =~= Seq::empty());
        if !cut {
            if let Some(last) = list.pop() {
                term = last;
                assert(text::texts(list@) =~= before.drop_last());
            }
        }
        let ghost kept = text::texts(list@);
        let ghost start = term@;
        term.push(c);
        list.push(term);
        assert(text::texts(list@) =~= kept.push(start.push(c)));
        i = i + 1;
    }
    assert(content@.take(content@.len() as int) =~= content@);
    list
}

/// Whether a text has a decimal digit.
fn has_digit(content: &str) -> (r: bool)
    ensures
        r == exists|i: int| 0 <= i < content@.len() && is_digit(#[trigger] content@[i]),
{
    let cs: Vec<char> = text::chars_of(content);
    let mut i: usize = 0;
    while i < cs.len()
        invariant
            i <= cs@.len(),
            cs@ == content@,
            forall|j: int| 0 <= j < i ==> !is_digit(#[trigger] content@[j]),
        decreases cs@.len() - i,
    {
        let c: char = cs[i];
        if '0' <= c && c <= '9' {
            assert(is_digit(content@[i as int]));
            return true;
        }
        i = i + 1;
    }
    false
}

/// Reads the terms of a text one by one, to see whether they stay within what a duration can
/// hold.
fn check_terms(content: &str) -> (r: bool)
    ensures
        r == fits_duration(content@),
{
    let list: Vec<String> = split_terms(content);
    proof {
        lemma_terms_are_single(content@);
        assert(text::texts(list@).take(0) =~= Seq::empty());
    }
    let mut sum: u128 = 0;
    let mut fits: bool = true;
    let mut i: usize = 0;
    while i < list.len()
        invariant
            i <= list@.len(),
            text::texts(list@) == terms(content@),
            forall|j: int| 0 <= j < terms(content@).len() ==> is_one_term(
                #[trigger] terms(content@)[j],
            ),
            fits == (terms_nanos(text::texts(list@).take(i as int)) < DURATION_NANOS),
            fits ==> sum == terms_nanos(text::texts(list@).take(i as int)),
        decreases list@.len() - i,
    {
        let ghost all = text::texts(list@);
        proof {
            assert(all.take(i + 1).drop_last() =~= all.take(i as int));
            assert(all.take(i + 1).last() == list@[i as int]@);
            assert(is_one_term(terms(content@)[i as int]));
        }
        let nanos: u128 = match parse_duration(list[i].as_str()) {
            Ok(parsed) => parsed.0 as u128 * 1_000_000_000 + parsed.1 as u128,
            Err(_) => if has_digit(list[i].as_str()) {
                u64::MAX as u128
            } else {
                0
            },
        };
        if fits {
            sum = sum + nanos;
            fits = sum < DURATION_NANOS;
        }
        i = i + 1;
    }
    assert(text::texts(list@).take(list@.len() as int) =~= text::texts(list@));
    fits
}

/// Whether a duration is shorter than a number of seconds.
pub fn is_below(parsed: (u64, u32), threshold_secs: u64) -> (r: bool)
    requires
        parsed.1 < 1_000_000_000,
    ensures
        r == (parsed.0 * 1_000_000_000 + parsed.1 < threshold_secs * 1_000_000_000),
{
    parsed.0 < threshold_secs
}

/// What a kubelet's `runtimeRequestTimeout` comes to.
#[derive(Debug)]
pub enum KubeletTimeout {
    /// The answer does not name one.
    Unreported,
    /// It is no duration: its terms may come to more than one can hold.
    TooLong { timeout: String },
    /// It is no duration.
    Unreadable { timeout: String, error: humantime::DurationError },
    /// Pulling a large image, or converting one, happens during CreateContainer and can
    /// exceed it.
    Low { timeout: String, secs: u64 },
    /// It is long enough.
    Enough { timeout: String, secs: u64 },
}

/// What a reported timeout comes to.
pub open spec fn timeout_gives(
    reported: Option<Seq<char>>,
    threshold_secs: u64,
    r: KubeletTimeout,
) -> bool {
    match reported {
        None => r is Unreported,
        Some(content) => if !fits_duration(content) {
            r matches KubeletTimeout::TooLong { timeout } && timeout@ == content
        } else {
            match parsed_duration(content) {
                None => r matches KubeletTimeout::Unreadable { timeout, .. } && timeout@ == content,
                Some(parsed) => if parsed.0 * 1_000_000_000 + parsed.1 < threshold_secs
                    * 1_000_000_000 {
                    r matches KubeletTimeout::Low { timeout, secs } && timeout@ == content && secs
                        == parsed.0
                } else {
                    r matches KubeletTimeout::Enough { timeout, secs } && timeout@ == content
                        && secs == parsed.0
                },
            }
        },
    }
}

/// A timeout is warned about exactly where it is shorter than the threshold, and told from one
/// that is no duration and from one that is not reported.
pub proof fn law_a_timeout_below_the_threshold_is_low(
    content: Seq<char>,
    parsed: (u64, u32),
    threshold_secs: u64,
    r: KubeletTimeout,
)
    requires
        timeout_gives(Some(content), threshold_secs, r),
        fits_duration(content),
        parsed_duration(content) == Some(parsed),
        parsed.1 < 1_000_000_000,
    ensures
        r is Low <==> parsed.0 < threshold_secs,
        r is Enough <==> parsed.0 >= threshold_secs,
{
}

/// The timeout is read from the kubelet's configuration, however that is spelled.
pub proof fn law_the_timeout_is_read_from_the_configuration(
    outer: Map<Seq<char>, JsonModel>,
    inner: Map<Seq<char>, JsonModel>,
    timeout: Seq<char>,
)
    requires
        inner.contains_key("runtimeRequestTimeout"@),
        inner["runtimeRequestTimeout"@] == JsonModel::Text(timeout),
        outer.contains_key("kubeletconfig"@) && outer["kubeletconfig"@] == JsonModel::Object(inner)
            || !outer.contains_key("kubeletconfig"@) && outer.contains_key("kubeletConfig"@)
            && outer["kubeletConfig"@] == JsonModel::Object(inner),
    ensures
        reported_timeout(JsonModel::Object(outer)) == Some(timeout),
{
}

/// Judges the `runtimeRequestTimeout` in a kubelet's `/configz` answer. Advisory and
/// never fatal.
pub fn warn_on_low_kubelet_timeout(configz: &serde_json::Value, threshold_secs: u64) -> (r:
    KubeletTimeout)
    ensures
        timeout_gives(reported_timeout(json::json_model(*configz)), threshold_secs, r),
{
    let timeout: String = match kubelet_runtime_request_timeout(configz) {
        Some(timeout) => timeout,
        None => {
            return KubeletTimeout::Unreported;
        },
    };
    if !check_terms(timeout.as_str()) {
        return KubeletTimeout::TooLong { timeout };
    }
    match parse_duration(timeout.as_str()) {
        Err(error) => KubeletTimeout::Unreadable { timeout, error },
        Ok(parsed) => {
            if is_below(parsed, threshold_secs) {
                KubeletTimeout::Low { timeout, secs: parsed.0 }
            } else {
                KubeletTimeout::Enough { timeout, secs: parsed.0 }
            }
        },
    }
}

/// A node is taken for ready as soon as its first condition of the type `Ready` is `True`,
/// and only then; until it is, it is read again for as long as the wait goes on, whether or
/// not it could be read, and only then does it fail.
pub proof fn law_a_node_is_awaited_until_it_is_ready(
    name: Seq<char>,
    timeout_secs: u64,
    elapsed_secs: u64,
    node: Node,
    at: int,
    step: WaitStep,
)
    requires
        readiness_gives(name, timeout_secs, elapsed_secs, Ok(node), step),
        node.status is Some,
        node.status->0.conditions is Some,
        0 <= at < node.status->0.conditions->0@.len(),
        node.status->0.conditions->0@[at].type_@ == "Ready"@,
        forall|j: int|
            0 <= j < at ==> (#[trigger] node.status->0.conditions->0@[j]).type_@ != "Ready"@,
    ensures
        step is Done <==> node.status->0.conditions->0@[at].status@ == "True"@,
        step is Fail ==> elapsed_secs >= timeout_secs,
        step is Again ==> elapsed_secs < timeout_secs,
{
    nodes::law_readiness_is_read_wherever_it_stands(node.status->0.conditions->0@, at);
}

/// A node that could not be read, or that does not say whether it is ready, is not taken for
/// ready.
pub proof fn law_silence_is_not_readiness(
    name: Seq<char>,
    timeout_secs: u64,
    elapsed_secs: u64,
    fetched: Result<Node, ApiError>,
    step: WaitStep,
)
    requires
        readiness_gives(name, timeout_secs, elapsed_secs, fetched, step),
        match fetched {
            Err(_) => true,
            Ok(node) => match node.status {
                None => true,
                Some(status) => match status.conditions {
                    None => true,
                    Some(list) => forall|j: int|
                        0 <= j < list@.len() ==> (#[trigger] list@[j]).type_@ != "Ready"@,
                },
            },
        },
    ensures
        step is Again <==> elapsed_secs < timeout_secs,
        step is Fail <==> elapsed_secs >= timeout_secs,
{
    reveal_strlit("Unknown");
    reveal_strlit("True");
    assert("Unknown"@.len() != "True"@.len());
    if let Ok(node) = fetched {
        if let Some(status) = node.status {
            if let Some(list) = status.conditions {
                nodes::law_without_the_condition_nothing_is_said(list@);
            }
        }
    }
}

/// Labels are seen in place only on the machine that was selected, and only where every one
/// of them is at its value, or gone where it was to go.
pub proof fn law_labels_are_seen_on_the_selected_machine(
    node: Node,
    expected_uid: Seq<char>,
    list: Seq<(Seq<char>, Option<Seq<char>>)>,
    at: int,
)
    requires
        good_look(Ok(node), expected_uid, list),
        0 <= at < list.len(),
    ensures
        node.uid matches Some(uid) && uid@ == expected_uid,
        match list[at].1 {
            Some(value) => node.labels matches Some(map) && map@.contains_key(list[at].0)
                && map@[list[at].0] == value,
            None => node.labels matches Some(map) ==> !map@.contains_key(list[at].0),
        },
{
    assert(labels::lookup(labels::or_empty(node.labels), list[at].0) == list[at].1);
}

/// A node of the selected machine with every label at its value is a good look.
pub proof fn law_labels_in_place_are_seen(
    node: Node,
    expected_uid: Seq<char>,
    list: Seq<(Seq<char>, Option<Seq<char>>)>,
)
    requires
        node.uid matches Some(uid) && uid@ == expected_uid,
        node.labels is Some,
        forall|i: int|
            0 <= i < list.len() ==> match (#[trigger] list[i]).1 {
                Some(value) => node.labels->0@.contains_key(list[i].0) && node.labels->0@[list[i].0]
                    == value,
                None => !node.labels->0@.contains_key(list[i].0),
            },
    ensures
        good_look(Ok(node), expected_uid, list),
{
}

/// Labels count as holding after six looks in a row that found them in place, as soon as
/// those were had, and not before.
pub proof fn law_six_good_looks_are_enough(looks: Seq<bool>)
    requires
        looks.len() >= 6,
        watched_all(looks.take(looks.len() - 6)) is Watching,
        forall|i: int| looks.len() - 6 <= i < looks.len() ==> #[trigger] looks[i],
    ensures
        watched_all(looks) is Held,
{
    let n = looks.len() as int;
    lemma_watching(looks.take(n - 6));
    lemma_good_looks(looks, n - 6, 1);
    lemma_good_looks(looks, n - 6, 2);
    lemma_good_looks(looks, n - 6, 3);
    lemma_good_looks(looks, n - 6, 4);
    lemma_good_looks(looks, n - 6, 5);
    lemma_good_looks(looks, n - 6, 6);
    assert(looks.take(n) =~= looks);
}

/// One more good look.
proof fn lemma_good_looks(looks: Seq<bool>, from: int, k: int)
    requires
        0 <= from,
        1 <= k,
        from + k <= looks.len(),
        looks[from + k - 1],
    ensures
        watched_all(looks.take(from + k)) == watched(watched_all(looks.take(from + k - 1)), true),
{
    assert(looks.take(from + k).drop_last() =~= looks.take(from + k - 1));
    assert(looks.take(from + k).last() == looks[from + k - 1]);
}

/// No label counts as holding before six looks found it in place.
pub proof fn law_fewer_than_six_good_looks_are_not(looks: Seq<bool>)
    requires
        looks.len() > 0,
        watched_all(looks.drop_last()) is Watching,
        watched_all(looks) is Held,
    ensures
        looks.len() >= 6,
        forall|i: int| looks.len() - 6 <= i < looks.len() ==> #[trigger] looks[i],
{
    law_labels_hold_only_when_seen_to_hold(looks);
}

/// The labels are written again for as long as tries are left: only the last of twelve bad
/// looks gives them up.
pub proof fn law_drifting_labels_are_written_again(attempt: int, stable: int)
    requires
        1 <= attempt <= 12,
    ensures
        watched(WatchState::Watching { attempt, stable }, false) == if attempt < 12 {
            WatchState::Watching { attempt: attempt + 1, stable: 0 }
        } else {
            WatchState::GaveUp
        },
{
}

} // verus!
