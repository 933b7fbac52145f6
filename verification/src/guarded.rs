//! Guarded writes to a node: read it, decide, patch what was read, and start over when
//! the node has moved on in between.
//!
//! The decision is read from labels, annotations and taints that others write
//! concurrently, so an unconditional write could act on a node that is no longer what
//! it was.

use crate::json;
use crate::json::JsonModel;
use crate::labels;
use crate::labels::StringMap;
use crate::nodes::{NodeLabelling, ResultKeys};
use crate::objects;
use crate::objects::{ApiError, Node, Taint};
use crate::text;
use crate::writes;
use vstd::prelude::*;
use vstd::string::*;

verus! {

// Concurrent updates are lost races, not broken nodes.

/// How often lifting taints is tried.
pub const TAINT_PATCH_ATTEMPTS: u32 = 3;

/// How often a claim is tried.
pub const CLAIM_PATCH_ATTEMPTS: u32 = 3;

/// How often a rewrite of labels is tried.
pub const LABEL_PATCH_ATTEMPTS: u32 = 5;

/// How often recording a result is tried.
pub const RESULT_PATCH_ATTEMPTS: u32 = 3;

/// The apiserver answers a failing JSON Patch `test` with 422 and a genuine write
/// conflict with 409; anything else failed on its merits.
pub open spec fn is_conflict(code: Option<u16>) -> bool {
    code == Some(409u16) || code == Some(422u16)
}

/// Whether reading the node again could make the write succeed.
pub fn is_precondition_failure(error: &ApiError) -> (r: bool)
    ensures
        r == is_conflict(error.code),
{
    match error.code {
        Some(code) => code == 409 || code == 422,
        None => false,
    }
}

/// What is to be written to a node.
#[derive(Debug)]
pub enum Intent {
    /// Take the node out of service before it is taken apart.
    Demote { labelling: NodeLabelling },
    /// Let go of the node once it was taken apart.
    Release { labelling: NodeLabelling, extra: Vec<(String, String)> },
    /// Advertise the node as finished.
    Finish { labelling: NodeLabelling, value: String, extra: Vec<(String, String)> },
    /// Mark the node as being worked on.
    Claim { labelling: NodeLabelling },
    /// Record what the run made of the node.
    Record { keys: ResultKeys, updates: Vec<(String, Option<String>)> },
    /// Lift the start-up taints.
    LiftTaints { matchers: Vec<String> },
}

/// What a decision comes to.
pub ghost enum Change {
    /// The node is not the one that was selected.
    Refused,
    /// The node already is as it should be.
    Nothing,
    /// The operations that make it so.
    Patch(Seq<JsonModel>),
}

/// The version of a node that a decision is read from.
pub open spec fn version_of(node: Node) -> Seq<char> {
    match node.resource_version {
        Some(version) => version@,
        None => Seq::empty(),
    }
}

/// The change that a list of label writes comes to.
pub open spec fn label_change(
    uid: Seq<char>,
    version: Seq<char>,
    list: Seq<(Seq<char>, Option<Seq<char>>)>,
) -> Change {
    if list.len() == 0 {
        Change::Nothing
    } else {
        Change::Patch(writes::label_patch_model(uid, version, list))
    }
}

/// The change that an intent comes to on a node as it was read.
pub open spec fn change_for(intent: Intent, uid: Seq<char>, node: Node) -> Change {
    let version = version_of(node);
    let on_node = labels::or_empty(node.labels);
    let notes = labels::or_empty(node.annotations);
    let taints = objects::taint_models(node.taints);
    if text::opt_text(node.uid) != Some(uid) {
        Change::Refused
    } else {
        match intent {
            Intent::Demote { labelling } => label_change(
                uid,
                version,
                writes::demotions(on_node, labelling),
            ),
            Intent::Release { labelling, extra } => label_change(
                uid,
                version,
                writes::releases(on_node, labelling, labels::pairs(extra@)),
            ),
            Intent::Finish { labelling, value, extra } => label_change(
                uid,
                version,
                writes::finished_labels(labelling, value@, labels::pairs(extra@)),
            ),
            Intent::Claim { labelling } => if writes::missing_keys(on_node, labelling).len() == 0 {
                Change::Nothing
            } else {
                Change::Patch(writes::claim_model(uid, version, on_node, labelling))
            },
            Intent::Record { keys, updates } => if writes::result_changes(
                keys,
                on_node,
                notes,
                labels::writes(updates@),
            ).len() == 0 {
                Change::Nothing
            } else {
                Change::Patch(
                    writes::result_model(
                        uid,
                        version,
                        keys,
                        on_node,
                        notes,
                        labels::writes(updates@),
                    ),
                )
            },
            Intent::LiftTaints { matchers } => if writes::removed_taints(
                taints,
                text::texts(matchers@),
            ).len() == 0 {
                Change::Nothing
            } else {
                Change::Patch(
                    writes::taint_patch_model(
                        uid,
                        version,
                        writes::retained_taints(taints, text::texts(matchers@)),
                    ),
                )
            },
        }
    }
}

/// Whatever is to be written, it is written only to the machine that was selected, and the
/// patch starts by testing that machine's UID and the version that the decision was read
/// from.
pub proof fn law_every_write_is_bracketed(intent: Intent, uid: Seq<char>, node: Node)
    requires
        change_for(intent, uid, node) is Patch,
    ensures
        text::opt_text(node.uid) == Some(uid),
        writes::guards(uid, version_of(node)).is_prefix_of(change_for(intent, uid, node)->Patch_0),
{
    let head = writes::guards(uid, version_of(node));
    let ops = change_for(intent, uid, node)->Patch_0;
    assert(ops.take(2) =~= head);
    assert(ops.subrange(0, head.len() as int) =~= head);
}

/// A list of label writes as a message says it.
pub open spec fn said_of(list: Seq<(Seq<char>, Option<Seq<char>>)>) -> Seq<char> {
    text::joined(
        list.map_values(|w: (Seq<char>, Option<Seq<char>>)| writes::described(w)),
        ", "@,
    )
}

/// What is being written, as a message says it: the label writes, the recorded keys or
/// the taints that go. A claim says nothing.
pub open spec fn about(intent: Intent, node: Node) -> Seq<char> {
    let on_node = labels::or_empty(node.labels);
    match intent {
        Intent::Demote { labelling } => said_of(writes::demotions(on_node, labelling)),
        Intent::Release { labelling, extra } => said_of(
            writes::releases(on_node, labelling, labels::pairs(extra@)),
        ),
        Intent::Finish { labelling, value, extra } => said_of(
            writes::finished_labels(labelling, value@, labels::pairs(extra@)),
        ),
        Intent::Claim { labelling } => Seq::empty(),
        Intent::Record { keys, updates } => said_of(labels::writes(updates@)),
        Intent::LiftTaints { matchers } => text::joined(
            writes::removed_taints(objects::taint_models(node.taints), text::texts(matchers@)),
            ", "@,
        ),
    }
}

/// How often an intent is tried.
pub open spec fn attempts_of(intent: Intent) -> u32 {
    match intent {
        Intent::Demote { .. } => LABEL_PATCH_ATTEMPTS,
        Intent::Release { .. } => LABEL_PATCH_ATTEMPTS,
        Intent::Finish { .. } => LABEL_PATCH_ATTEMPTS,
        Intent::Claim { .. } => CLAIM_PATCH_ATTEMPTS,
        Intent::Record { .. } => RESULT_PATCH_ATTEMPTS,
        Intent::LiftTaints { .. } => TAINT_PATCH_ATTEMPTS,
    }
}

/// What is said of a node that could not be read.
pub open spec fn unread_text(node: Seq<char>, message: Seq<char>) -> Seq<char> {
    "failed to get node "@ + node + ": "@ + message
}

/// Says that a node could not be read.
pub fn say_unread(node: &str, message: &str) -> (r: String)
    ensures
        r@ == unread_text(node@, message@),
{
    "failed to get node ".to_string().concat(node).concat(": ").concat(message)
}

/// What is said when the node could not be read to decide on it.
pub open spec fn read_failure(intent: Intent, node: Seq<char>, message: Seq<char>) -> Seq<char> {
    match intent {
        Intent::Claim { .. } => "could not read node "@ + node + " to claim it: "@ + unread_text(
            node,
            message,
        ),
        _ => unread_text(node, message),
    }
}

/// What is said when the name belongs to another machine by now.
pub open spec fn identity_failure(intent: Intent, node: Seq<char>) -> Seq<char> {
    "node "@ + node + match intent {
        Intent::Claim { .. } => " changed identity before it could be claimed"@,
        Intent::Record { .. } => " changed identity before its result could be recorded"@,
        Intent::LiftTaints { .. } => " changed identity before its taints could be removed"@,
        _ => " changed identity before its labels could be rewritten"@,
    }
}

/// What is said when the write failed on its merits.
pub open spec fn write_failure(
    intent: Intent,
    node: Seq<char>,
    about: Seq<char>,
    message: Seq<char>,
) -> Seq<char> {
    match intent {
        Intent::Claim { .. } => "could not claim node "@ + node
            + "; refusing to mutate a host that a later cleanup could not discover: "@ + message,
        Intent::Record { .. } => "could not record the result on node "@ + node + ": "@ + message,
        Intent::LiftTaints { .. } => "failed to patch taints on node "@ + node + ": "@ + message,
        _ => "failed to write labels "@ + about + " on node "@ + node + ": "@ + message,
    }
}

/// What is said when every attempt found that the node had moved on.
pub open spec fn gave_up(intent: Intent, node: Seq<char>) -> Seq<char> {
    let times = text::decimal(attempts_of(intent) as nat);
    match intent {
        Intent::Claim { .. } => "gave up claiming node "@ + node + " after "@ + times
            + " attempts: something keeps changing its labels; refusing to mutate a host that a later cleanup could not discover"@,
        Intent::Record { .. } => "gave up recording the result on node "@ + node + " after "@
            + times + " attempts"@,
        Intent::LiftTaints { .. } => "gave up lifting taints on node "@ + node + " after "@ + times
            + " attempts: something keeps changing them concurrently"@,
        _ => "gave up rewriting the labels on node "@ + node + " after "@ + times
            + " attempts: something keeps changing them concurrently"@,
    }
}

/// What to do next about a write.
#[derive(Debug)]
pub enum WriteStep {
    /// Read the node, and say what came back.
    Read,
    /// Send the patch, and say what came back.
    Patch(json_patch::Patch),
    /// Nothing more: the node is as it should be.
    Done,
    /// Nothing more: the node is not as it should be, and why.
    Fail(String),
}

/// What a patch that should be made is sent as.
fn send(built: Result<json_patch::Patch, serde_json::Error>, failure: &str) -> (r: WriteStep)
    requires
        built is Ok,
    ensures
        r == WriteStep::Patch(built->Ok_0),
{
    match built {
        Ok(patch) => WriteStep::Patch(patch),
        Err(_) => WriteStep::Fail(failure.to_string()),
    }
}

/// The labels or annotations of a node; a node without the map has none.
fn map_of(map: &Option<StringMap>) -> (r: StringMap)
    ensures
        r@ == labels::or_empty(*map),
{
    match map {
        Some(map) => map.clone(),
        None => StringMap::new(),
    }
}

/// A write to a node, between two answers of the apiserver.
#[derive(Debug)]
pub struct GuardedWrite {
    node: String,
    expected_uid: String,
    intent: Intent,
    attempt: u32,
    about: String,
}

impl GuardedWrite {
    /// The node's name.
    pub closed spec fn node_text(self) -> Seq<char> {
        self.node@
    }

    /// The UID that the node was selected as.
    pub closed spec fn uid_text(self) -> Seq<char> {
        self.expected_uid@
    }

    /// What is to be written.
    pub closed spec fn goal(self) -> Intent {
        self.intent
    }

    /// Which attempt this is, counted from one.
    pub closed spec fn attempt_number(self) -> int {
        self.attempt as int
    }

    /// What the last decision was about.
    pub closed spec fn about_text(self) -> Seq<char> {
        self.about@
    }

    #[verifier::type_invariant]
    spec fn wf(self) -> bool {
        1 <= self.attempt <= attempts_of(self.intent)
    }

    /// A write that has not started. The node is to be read first.
    pub fn new(node: &str, expected_uid: &str, intent: Intent) -> (r: Self)
        ensures
            r.node_text() == node@,
            r.uid_text() == expected_uid@,
            r.goal() == intent,
            r.attempt_number() == 1,
    {
        GuardedWrite {
            node: node.to_string(),
            expected_uid: expected_uid.to_string(),
            intent,
            attempt: 1,
            about: String::new(),
        }
    }

    /// What the last decision was about.
    pub fn about(&self) -> (r: &str)
        ensures
            r@ == self.about_text(),
    {
        self.about.as_str()
    }

    /// The same write, at whatever attempt.
    pub open spec fn same_write(self, other: GuardedWrite) -> bool {
        &&& self.node_text() == other.node_text()
        &&& self.uid_text() == other.uid_text()
        &&& self.goal() == other.goal()
    }

    /// What reading the node leads to.
    pub open spec fn read_gives(
        self,
        fetched: Result<Node, ApiError>,
        after: GuardedWrite,
        step: WriteStep,
    ) -> bool {
        &&& after.same_write(self)
        &&& after.attempt_number() == self.attempt_number()
        &&& match fetched {
            Err(error) => step matches WriteStep::Fail(why) && why@ == read_failure(
                self.goal(),
                self.node_text(),
                error.message@,
            ),
            Ok(node) => match change_for(self.goal(), self.uid_text(), node) {
                Change::Refused => step matches WriteStep::Fail(why) && why@ == identity_failure(
                    self.goal(),
                    self.node_text(),
                ),
                Change::Nothing => step is Done,
                Change::Patch(ops) => step matches WriteStep::Patch(patch) && json::patch_model(
                    patch,
                ) == ops && after.about_text() == about(self.goal(), node),
            },
        }
    }

    /// What the answer to the patch leads to.
    pub open spec fn patched_gives(
        self,
        answer: Result<(), ApiError>,
        after: GuardedWrite,
        step: WriteStep,
    ) -> bool {
        &&& after.same_write(self)
        &&& after.about_text() == self.about_text()
        &&& 1 <= self.attempt_number() <= attempts_of(self.goal())
        &&& after.attempt_number() == self.attempt_number() + if step is Read {
            1int
        } else {
            0int
        }
        &&& match answer {
            Ok(_) => step is Done,
            Err(error) => if !is_conflict(error.code) {
                step matches WriteStep::Fail(why) && why@ == write_failure(
                    self.goal(),
                    self.node_text(),
                    self.about_text(),
                    error.message@,
                )
            } else if self.attempt_number() < attempts_of(self.goal()) {
                step is Read
            } else {
                step matches WriteStep::Fail(why) && why@ == gave_up(self.goal(), self.node_text())
            },
        }
    }

    /// Decides on the node as it was read.
    pub fn read(&mut self, fetched: Result<Node, ApiError>) -> (r: WriteStep)
        ensures
            old(self).read_gives(fetched, *final(self), r),
    {
        proof {
            use_type_invariant(&*self);
        }
        let fetched: Node = match fetched {
            Ok(node) => node,
            Err(error) => {
                let unread: String = say_unread(self.node.as_str(), error.message.as_str());
                return WriteStep::Fail(
                    match self.intent {
                        Intent::Claim { .. } => "could not read node ".to_string().concat(
                            self.node.as_str(),
                        ).concat(" to claim it: ").concat(unread.as_str()),
                        _ => unread,
                    },
                );
            },
        };
        let same: bool = match &fetched.uid {
            Some(uid) => text::same(uid.as_str(), self.expected_uid.as_str()),
            None => false,
        };
        if !same {
            return WriteStep::Fail(
                "node ".to_string().concat(self.node.as_str()).concat(
                    match self.intent {
                        Intent::Claim { .. } => " changed identity before it could be claimed",
                        Intent::Record { .. } => " changed identity before its result could be recorded",
                        Intent::LiftTaints { .. } => " changed identity before its taints could be removed",
                        _ => " changed identity before its labels could be rewritten",
                    },
                ),
            );
        }
        let version: String = match &fetched.resource_version {
            Some(version) => version.clone(),
            None => String::new(),
        };
        let uid: &str = self.expected_uid.as_str();
        let on_node: StringMap = map_of(&fetched.labels);
        let notes: StringMap = map_of(&fetched.annotations);
        let (step, said) = match &self.intent {
            Intent::Demote { labelling } => rewrite(
                uid,
                version.as_str(),
                writes::demote_updates(&on_node, labelling),
            ),
            Intent::Release { labelling, extra } => rewrite(
                uid,
                version.as_str(),
                writes::release_updates(&on_node, labelling, extra.as_slice()),
            ),
            Intent::Finish { labelling, value, extra } => rewrite(
                uid,
                version.as_str(),
                writes::finished_updates(labelling, value.as_str(), extra.as_slice()),
            ),
            Intent::Claim { labelling } => (
                match writes::claim_patch(uid, version.as_str(), &on_node, labelling) {
                    Some(built) => send(built, "could not build the node claim patch"),
                    None => WriteStep::Done,
                },
                String::new(),
            ),
            Intent::Record { keys, updates } => (
                match writes::result_patch(
                    uid,
                    version.as_str(),
                    keys,
                    &on_node,
                    &notes,
                    updates.as_slice(),
                ) {
                    Some(built) => send(built, "could not build the result patch"),
                    None => WriteStep::Done,
                },
                writes::describe_updates(updates.as_slice()),
            ),
            Intent::LiftTaints { matchers } => lift(
                uid,
                version.as_str(),
                &fetched.taints,
                matchers.as_slice(),
            ),
        };
        self.about = said;
        step
    }

    /// Takes the answer to the patch. A node that moved on is read again, as long as
    /// there are attempts left.
    pub fn patched(&mut self, answer: Result<(), ApiError>) -> (r: WriteStep)
        ensures
            old(self).patched_gives(answer, *final(self), r),
    {
        proof {
            use_type_invariant(&*self);
        }
        let error: ApiError = match answer {
            Ok(_) => {
                return WriteStep::Done;
            },
            Err(error) => error,
        };
        let node: &str = self.node.as_str();
        if !is_precondition_failure(&error) {
            let message: &str = error.message.as_str();
            return WriteStep::Fail(
                match self.intent {
                    Intent::Claim { .. } => "could not claim node ".to_string().concat(node).concat(
                        "; refusing to mutate a host that a later cleanup could not discover: ",
                    ).concat(message),
                    Intent::Record { .. } => "could not record the result on node ".to_string().concat(
                        node,
                    ).concat(": ").concat(message),
                    Intent::LiftTaints { .. } => "failed to patch taints on node ".to_string().concat(
                        node,
                    ).concat(": ").concat(message),
                    _ => "failed to write labels ".to_string().concat(self.about.as_str()).concat(
                        " on node ",
                    ).concat(node).concat(": ").concat(message),
                },
            );
        }
        let limit: u32 = match self.intent {
            Intent::Claim { .. } => CLAIM_PATCH_ATTEMPTS,
            Intent::Record { .. } => RESULT_PATCH_ATTEMPTS,
            Intent::LiftTaints { .. } => TAINT_PATCH_ATTEMPTS,
            _ => LABEL_PATCH_ATTEMPTS,
        };
        if self.attempt < limit {
            self.attempt = self.attempt + 1;
            return WriteStep::Read;
        }
        let times: String = text::number(limit as u64);
        WriteStep::Fail(
            match self.intent {
                Intent::Claim { .. } => "gave up claiming node ".to_string().concat(node).concat(
                    " after ",
                ).concat(times.as_str()).concat(
                    " attempts: something keeps changing its labels; refusing to mutate a host that a later cleanup could not discover",
                ),
                Intent::Record { .. } => "gave up recording the result on node ".to_string().concat(
                    node,
                ).concat(" after ").concat(times.as_str()).concat(" attempts"),
                Intent::LiftTaints { .. } => "gave up lifting taints on node ".to_string().concat(
                    node,
                ).concat(" after ").concat(times.as_str()).concat(
                    " attempts: something keeps changing them concurrently",
                ),
                _ => "gave up rewriting the labels on node ".to_string().concat(node).concat(
                    " after ",
                ).concat(times.as_str()).concat(
                    " attempts: something keeps changing them concurrently",
                ),
            },
        )
    }
}

/// Decides on a list of label writes.
fn rewrite(uid: &str, version: &str, updates: Vec<(String, Option<String>)>) -> (r: (
    WriteStep,
    String,
))
    ensures
        r.1@ == said_of(labels::writes(updates@)),
        match label_change(uid@, version@, labels::writes(updates@)) {
            Change::Patch(ops) => r.0 matches WriteStep::Patch(patch) && json::patch_model(patch)
                == ops,
            _ => r.0 is Done,
        },
{
    let said: String = writes::describe_updates(updates.as_slice());
    if updates.len() == 0 {
        return (WriteStep::Done, said);
    }
    let built = writes::label_patch(uid, version, updates.as_slice());
    (send(built, "failed to build the label patch"), said)
}

/// Decides on the taints of a node.
fn lift(uid: &str, version: &str, taints: &Option<Vec<Taint>>, matchers: &[String]) -> (r: (
    WriteStep,
    String,
))
    ensures
        ({
            let all = objects::taint_models(*taints);
            let ms = text::texts(matchers@);
            &&& r.1@ == text::joined(writes::removed_taints(all, ms), ", "@)
            &&& if writes::removed_taints(all, ms).len() == 0 {
                r.0 is Done
            } else {
                r.0 matches WriteStep::Patch(patch) && json::patch_model(patch)
                    == writes::taint_patch_model(uid@, version@, writes::retained_taints(all, ms))
            }
        }),
{
    let none: Vec<Taint> = Vec::new();
    let list: &[Taint] = match taints {
        Some(list) => list.as_slice(),
        None => none.as_slice(),
    };
    assert(writes::taint_views(list@) =~= objects::taint_models(*taints));
    let (retained, removed) = writes::partition_taints(list, matchers);
    let said: String = text::join(&removed, ", ");
    if removed.len() == 0 {
        assert(text::texts(removed@).len() == 0);
        return (WriteStep::Done, said);
    }
    assert(text::texts(removed@).len() > 0);
    let built = writes::taint_patch(uid, version, retained.as_slice());
    (send(built, "failed to build the taint patch"), said)
}

/// A write that another one got in the way of is tried again from a fresh read, as often as
/// it may be; one that was refused for any other reason is not, and one that was made is
/// done.
pub proof fn law_only_conflicts_are_retried(
    write: GuardedWrite,
    answer: Result<(), ApiError>,
    after: GuardedWrite,
    step: WriteStep,
)
    requires
        write.patched_gives(answer, after, step),
    ensures
        step is Done <==> answer is Ok,
        step is Read <==> answer is Err && (answer->Err_0.code == Some(409u16)
            || answer->Err_0.code == Some(422u16)) && write.attempt_number() < attempts_of(
            write.goal(),
        ),
        step is Read ==> after.attempt_number() == write.attempt_number() + 1,
        !(step is Patch),
{
}

/// Every write gets more than one try.
pub proof fn law_every_write_gets_another_try(intent: Intent)
    ensures
        attempts_of(intent) >= 2,
{
}

/// A node is written to only where its UID is the one that it was selected as, whatever the
/// write is for.
pub proof fn law_another_machine_is_never_written_to(
    write: GuardedWrite,
    node: Node,
    after: GuardedWrite,
    step: WriteStep,
)
    requires
        write.read_gives(Ok(node), after, step),
        !(node.uid matches Some(uid) && uid@ == write.uid_text()),
    ensures
        step is Fail,
{
}

} // verus!
