//! A run's result as an Event against the Node.
//!
//! The dispatcher's log goes with its pod and the per-node Jobs go with their TTL, so this
//! is addressed to the Node instead - which is also what `kubectl describe node` shows and
//! what event pipelines already collect.

use crate::job;
use crate::objects::Node;
use crate::text;
use vstd::prelude::*;
use vstd::string::*;

verus! {

/// The reason of an Event about a node that failed.
pub const FAILED: &'static str = "JobFailed";

/// The reason of an Event about a node that a run finished on.
pub const SUCCEEDED: &'static str = "JobSucceeded";

/// The reason of an Event about a node whose Job is getting nowhere.
pub const WAITING: &'static str = "JobPending";

/// The type of an Event that somebody should look at.
pub const WARNING: &'static str = "Warning";

/// The type of an Event that nobody has to look at.
pub const NORMAL: &'static str = "Normal";

/// A Node has no namespace, and the apiserver rejects an Event whose `involvedObject` has
/// none unless the Event itself is in `default`. It is also where the kubelet's own Node
/// events go.
pub const EVENT_NAMESPACE: &'static str = "default";

/// What an Event is about.
#[derive(Debug)]
pub struct Involved {
    pub api_version: Option<String>,
    pub kind: Option<String>,
    pub name: Option<String>,
    pub uid: Option<String>,
}

/// An Event.
#[derive(Debug)]
pub struct EventRecord {
    pub name: Option<String>,
    /// The apiserver's suffix keeps two results for one node apart.
    pub generate_name: Option<String>,
    pub involved_object: Involved,
    pub reason: Option<String>,
    pub message: Option<String>,
    pub type_: Option<String>,
    pub first_timestamp: Option<String>,
    pub last_timestamp: Option<String>,
    /// It makes the apiserver validate an Event as one of events.k8s.io, which wants more
    /// than a legacy recorder has.
    pub event_time: Option<String>,
    pub count: Option<i32>,
    pub component: Option<String>,
    pub host: Option<String>,
}

/// Whether an Event says this, of this node.
pub open spec fn is_event(
    event: EventRecord,
    component: Seq<char>,
    node: Node,
    name: Seq<char>,
    kind: Seq<char>,
    reason: Seq<char>,
    message: Seq<char>,
    now: Seq<char>,
) -> bool {
    &&& event.name is None
    &&& text::opt_text(event.generate_name) == Some(job::dns_text(name) + "."@)
    &&& text::opt_text(event.involved_object.api_version) == Some("v1"@)
    &&& text::opt_text(event.involved_object.kind) == Some("Node"@)
    &&& text::opt_text(event.involved_object.name) == Some(name)
    &&& event.involved_object.uid == node.uid
    &&& text::opt_text(event.reason) == Some(reason)
    &&& text::opt_text(event.message) == Some(message)
    &&& text::opt_text(event.type_) == Some(kind)
    &&& text::opt_text(event.first_timestamp) == Some(now)
    &&& text::opt_text(event.last_timestamp) == Some(now)
    &&& event.event_time is None
    &&& event.count == Some(1i32)
    &&& text::opt_text(event.component) == Some(component)
    &&& text::opt_text(event.host) == Some(name)
}

/// An Event about a node, at a moment written as the apiserver reads it.
pub fn build(
    component: &str,
    node: &Node,
    name: &str,
    kind: &str,
    reason: &str,
    message: &str,
    now: &str,
) -> (r: EventRecord)
    ensures
        is_event(r, component@, *node, name@, kind@, reason@, message@, now@),
{
    EventRecord {
        name: None,
        generate_name: Some(job::sanitize_node(name).concat(".")),
        involved_object: Involved {
            api_version: Some("v1".to_string()),
            kind: Some("Node".to_string()),
            name: Some(name.to_string()),
            uid: text::copy_opt(&node.uid),
        },
        reason: Some(reason.to_string()),
        message: Some(message.to_string()),
        type_: Some(kind.to_string()),
        first_timestamp: Some(now.to_string()),
        last_timestamp: Some(now.to_string()),
        event_time: None,
        count: Some(1),
        component: Some(component.to_string()),
        host: Some(name.to_string()),
    }
}

/// What reports a run's results. Every run reports; there is no flag for it. A rollout that
/// has to be asked to explain itself is one nobody asked.
#[derive(Debug)]
pub struct Reporter {
    component: String,
}

/// Whether an Event, where the node has a name to address it to, says this.
pub open spec fn is_report(
    event: Option<EventRecord>,
    component: Seq<char>,
    node: Node,
    kind: Seq<char>,
    reason: Seq<char>,
    message: Seq<char>,
    now: Seq<char>,
) -> bool {
    match node.name {
        Some(name) => event matches Some(event) && is_event(
            event,
            component,
            node,
            name@,
            kind,
            reason,
            message,
            now,
        ),
        None => event is None,
    }
}

impl Reporter {
    /// What the Events say they come from.
    pub closed spec fn component_text(self) -> Seq<char> {
        self.component@
    }

    /// A reporter of this name.
    pub fn new(component: &str) -> (r: Self)
        ensures
            r.component_text() == component@,
    {
        Reporter { component: component.to_string() }
    }

    /// The Event about a node that failed.
    pub fn node_failed(&self, node: &Node, reason: &str, now: &str) -> (r: Option<EventRecord>)
        ensures
            is_report(r, self.component_text(), *node, WARNING@, FAILED@, reason@, now@),
    {
        self.emit(node, WARNING, FAILED, reason, now)
    }

    /// The Event about a node that the run finished on.
    pub fn node_succeeded(&self, node: &Node, now: &str) -> (r: Option<EventRecord>)
        ensures
            is_report(
                r,
                self.component_text(),
                *node,
                NORMAL@,
                SUCCEEDED@,
                "the node's Job completed"@,
                now@,
            ),
    {
        self.emit(node, NORMAL, SUCCEEDED, "the node's Job completed", now)
    }

    /// The Event about a node whose Job is getting nowhere.
    pub fn node_waiting(&self, node: &Node, detail: &str, now: &str) -> (r: Option<EventRecord>)
        ensures
            is_report(r, self.component_text(), *node, WARNING@, WAITING@, detail@, now@),
    {
        self.emit(node, WARNING, WAITING, detail, now)
    }

    /// An Event about a node; none where it has no name to address it to.
    fn emit(&self, node: &Node, kind: &str, reason: &str, message: &str, now: &str) -> (r: Option<
        EventRecord,
    >)
        ensures
            is_report(r, self.component_text(), *node, kind@, reason@, message@, now@),
    {
        match &node.name {
            Some(name) => Some(
                build(self.component.as_str(), node, name.as_str(), kind, reason, message, now),
            ),
            None => None,
        }
    }
}

/// An Event is about its node, by name and by UID, and says what it was told to.
pub proof fn law_events_are_about_their_node(
    event: EventRecord,
    component: Seq<char>,
    node: Node,
    name: Seq<char>,
    kind: Seq<char>,
    reason: Seq<char>,
    message: Seq<char>,
    now: Seq<char>,
)
    requires
        is_event(event, component, node, name, kind, reason, message, now),
    ensures
        event.involved_object.kind is Some && event.involved_object.kind->0@ == "Node"@,
        event.involved_object.name is Some && event.involved_object.name->0@ == name,
        event.involved_object.uid == node.uid,
        event.type_ is Some && event.type_->0@ == kind,
        event.reason is Some && event.reason->0@ == reason,
        event.message is Some && event.message->0@ == message,
        event.component is Some && event.component->0@ == component,
        event.event_time is None,
        event.count == Some(1i32),
{
}

} // verus!
