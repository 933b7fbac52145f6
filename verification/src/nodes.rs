//! What a run writes on a node, and what it reads there.
//!
//! The node-scoped work is decided here rather than inside the per-node Jobs, so that
//! those Jobs need no token of their own.

use crate::labels;
use crate::labels::StringMap;
use crate::objects::Node;
use crate::text;
use vstd::prelude::*;
use vstd::string::*;

verus! {

/// The value that means "claimed, not finished" unless a run says otherwise.
pub const DEFAULT_PENDING_LABEL_VALUE: &'static str = "false";

/// The name of an instance that was given none.
pub const DEFAULT_INSTANCE: &'static str = "default";

/// One instance's marker label. Without it, an instance removing the shared label
/// could not tell whether that leaves another instance's workloads with nowhere to
/// run.
#[derive(Debug)]
pub struct InstanceMarker {
    prefix: String,
    key: String,
}

/// A label prefix as it is written before a `/`: without white space around it and
/// without the slashes at its end.
pub open spec fn label_prefix(prefix: Seq<char>) -> Seq<char> {
    text::end_stripped(text::trimmed(prefix), '/')
}

/// The name that an instance goes by.
pub open spec fn instance_name(instance: Option<Seq<char>>) -> Seq<char> {
    match instance {
        Some(name) => if text::trimmed(name).len() > 0 {
            text::trimmed(name)
        } else {
            DEFAULT_INSTANCE@
        },
        None => DEFAULT_INSTANCE@,
    }
}

/// The key below a prefix.
pub open spec fn key_below(prefix: Seq<char>, name: Seq<char>) -> Seq<char> {
    prefix + "/"@ + name
}

/// Whether a key stands below a prefix, with the `/` between them.
pub open spec fn stands_below(prefix: Seq<char>, key: Seq<char>) -> bool {
    prefix.push('/').is_prefix_of(key)
}

impl InstanceMarker {
    /// The prefix that every instance of a deployment marks its nodes below.
    pub closed spec fn prefix_text(self) -> Seq<char> {
        self.prefix@
    }

    /// The key that this instance marks its nodes with.
    pub closed spec fn key_text(self) -> Seq<char> {
        self.key@
    }

    /// The marker of an instance below a prefix.
    pub fn new(prefix: &str, instance: Option<&str>) -> (r: Self)
        ensures
            r.prefix_text() == label_prefix(prefix@),
            r.key_text() == key_below(label_prefix(prefix@), instance_name(text::opt_str(instance))),
    {
        let prefix: &str = text::strip_end(text::trim(prefix), '/');
        let name: &str = match instance {
            Some(given) => {
                let given: &str = text::trim(given);
                if given.is_empty() {
                    DEFAULT_INSTANCE
                } else {
                    given
                }
            },
            None => DEFAULT_INSTANCE,
        };
        InstanceMarker {
            key: prefix.to_string().concat("/").concat(name),
            prefix: prefix.to_string(),
        }
    }

    /// The key that this instance marks its nodes with.
    pub fn key(&self) -> (r: &str)
        ensures
            r@ == self.key_text(),
    {
        self.key.as_str()
    }

    /// Matched on the `/` boundary, so an unrelated key that merely starts with
    /// the same characters is not read as another instance's claim.
    pub fn is_marker(&self, key: &str) -> (r: bool)
        ensures
            r == stands_below(self.prefix_text(), key@),
    {
        let p: Vec<char> = text::chars_of(self.prefix.as_str());
        let k: Vec<char> = text::chars_of(key);
        if k.len() <= p.len() {
            return false;
        }
        let mut i: usize = 0;
        while i < p.len()
            invariant
                i <= p@.len(),
                p@.len() < k@.len(),
                p@ == self.prefix@,
                k@ == key@,
                forall|j: int| 0 <= j < i ==> p@[j] == k@[j],
            decreases p@.len() - i,
        {
            if p[i] != k[i] {
                assert(self.prefix@.push('/')[i as int] != key@.subrange(
                    0,
                    self.prefix@.push('/').len() as int,
                )[i as int]);
                return false;
            }
            i = i + 1;
        }
        proof {
            let whole = self.prefix@.push('/');
            let start = key@.subrange(0, whole.len() as int);
            if k@[p@.len() as int] == '/' {
                assert(whole =~= start);
            } else {
                assert(whole[p@.len() as int] != start[p@.len() as int]);
            }
        }
        k[p.len()] == '/'
    }
}

impl Clone for InstanceMarker {
    fn clone(&self) -> (r: Self)
        ensures
            r == *self,
    {
        InstanceMarker { prefix: self.prefix.clone(), key: self.key.clone() }
    }
}

/// The key is the caller's, because whatever selects on it is theirs.
#[derive(Debug)]
pub struct NodeLabelling {
    pub key: String,
    pub pending_value: String,
    pub instance: Option<InstanceMarker>,
}

impl NodeLabelling {
    /// The key recording that this instance holds a node.
    pub open spec fn ownership(self) -> Seq<char> {
        match self.instance {
            Some(marker) => marker.key_text(),
            None => self.key@,
        }
    }

    /// The keys that this instance writes: the shared one, then its marker.
    pub open spec fn key_list(self) -> Seq<Seq<char>> {
        match self.instance {
            Some(marker) => seq![self.key@, marker.key_text()],
            None => seq![self.key@],
        }
    }

    /// The key recording that this instance holds a node: its marker when there
    /// is one, otherwise the shared key, which a lone instance owns outright.
    pub fn ownership_key(&self) -> (r: &str)
        ensures
            r@ == self.ownership(),
    {
        match &self.instance {
            Some(marker) => marker.key(),
            None => self.key.as_str(),
        }
    }

    /// The keys that this instance writes.
    pub fn keys(&self) -> (r: Vec<String>)
        ensures
            text::texts(r@) == self.key_list(),
    {
        let mut keys: Vec<String> = Vec::new();
        keys.push(self.key.clone());
        if let Some(marker) = &self.instance {
            keys.push(marker.key().to_string());
        }
        assert(text::texts(keys@) =~= self.key_list());
        keys
    }
}

impl Clone for NodeLabelling {
    fn clone(&self) -> (r: Self)
        ensures
            r == *self,
    {
        NodeLabelling {
            key: self.key.clone(),
            pending_value: self.pending_value.clone(),
            instance: match &self.instance {
                Some(marker) => Some(marker.clone()),
                None => None,
            },
        }
    }
}

/// What becomes of the shared label once this instance lets go of a node.
#[derive(Debug, Clone, Copy, PartialEq, Eq, Structural)]
pub enum SharedLabel {
    /// Another instance is still serving here.
    Keep,
    /// The others have only claimed the node: nothing may be selected on the
    /// shared key, but it has to stay so their cleanups can still find the node.
    Demote,
    /// Ours was the last mark.
    Remove,
}

/// Whether a node carries `key` as the mark of another instance.
pub open spec fn is_other_mark(
    on_node: Map<Seq<char>, Seq<char>>,
    marker: InstanceMarker,
    key: Seq<char>,
) -> bool {
    &&& on_node.contains_key(key)
    &&& key != marker.key_text()
    &&& stands_below(marker.prefix_text(), key)
}

/// Another instance has claimed the node, whether or not it finished there.
pub open spec fn other_holds(on_node: Map<Seq<char>, Seq<char>>, marker: InstanceMarker) -> bool {
    exists|key: Seq<char>| #[trigger] is_other_mark(on_node, marker, key)
}

/// Another instance has finished on the node and is serving from it.
pub open spec fn other_serves(
    on_node: Map<Seq<char>, Seq<char>>,
    marker: InstanceMarker,
    pending: Seq<char>,
) -> bool {
    exists|key: Seq<char>| #[trigger] is_other_mark(on_node, marker, key) && on_node[key] != pending
}

/// What becomes of the shared label.
pub open spec fn shared_after(
    on_node: Map<Seq<char>, Seq<char>>,
    labelling: NodeLabelling,
) -> SharedLabel {
    match labelling.instance {
        None => SharedLabel::Remove,
        Some(marker) => if other_serves(on_node, marker, labelling.pending_value@) {
            SharedLabel::Keep
        } else if other_holds(on_node, marker) {
            SharedLabel::Demote
        } else {
            SharedLabel::Remove
        },
    }
}

/// The value matters, not just the key: reading a pending mark as "ready here"
/// would leave the node advertised with nothing behind it.
pub fn shared_label_after(on_node: &StringMap, labelling: &NodeLabelling) -> (r: SharedLabel)
    ensures
        r == shared_after(on_node@, *labelling),
{
    let marker: &InstanceMarker = match &labelling.instance {
        Some(marker) => marker,
        None => {
            return SharedLabel::Remove;
        },
    };
    let keys: Vec<String> = on_node.keys();
    let mut any: bool = false;
    let mut i: usize = 0;
    let ghost all = text::texts(keys@);
    while i < keys.len()
        invariant
            i <= keys@.len(),
            all == text::texts(keys@),
            labelling.instance == Some(*marker),
            forall|key: Seq<char>| #[trigger] all.contains(key) <==> on_node@.contains_key(key),
            any ==> other_holds(on_node@, *marker),
            forall|j: int|
                0 <= j < i && is_other_mark(on_node@, *marker, #[trigger] all[j]) ==> any
                    && on_node@[all[j]] == labelling.pending_value@,
        decreases keys@.len() - i,
    {
        let key: &str = keys[i].as_str();
        assert(all[i as int] == key@);
        assert(all.contains(key@));
        if !text::same(key, marker.key()) && marker.is_marker(key) {
            assert(is_other_mark(on_node@, *marker, key@));
            any = true;
            match on_node.get(key) {
                Some(value) => {
                    if !text::same(value, labelling.pending_value.as_str()) {
                        assert(other_serves(on_node@, *marker, labelling.pending_value@));
                        return SharedLabel::Keep;
                    }
                },
                None => {},
            }
        }
        i = i + 1;
    }
    proof {
        assert forall|key: Seq<char>| #[trigger] is_other_mark(on_node@, *marker, key) implies any
            && on_node@[key] == labelling.pending_value@ by {
            assert(all.contains(key));
            let j = choose|j: int| 0 <= j < all.len() && all[j] == key;
            assert(is_other_mark(on_node@, *marker, all[j]));
        }
    }
    if any {
        SharedLabel::Demote
    } else {
        SharedLabel::Remove
    }
}

/// What a per-node Job would otherwise have to read from the apiserver itself.
#[derive(Debug, Clone, PartialEq, Eq, Default)]
pub struct NodeFacts {
    pub name: String,
    pub container_runtime_version: Option<String>,
    pub machine_id: Option<String>,
}

/// A text that says something.
pub open spec fn non_empty(content: Seq<char>) -> Option<Seq<char>> {
    if content.len() > 0 {
        Some(content)
    } else {
        None
    }
}

/// What a node says about its software.
pub open spec fn info_of(node: Node) -> Option<crate::objects::NodeInfo> {
    match node.status {
        Some(status) => status.node_info,
        None => None,
    }
}

/// The runtime version that a node reports.
pub open spec fn runtime_version_of(node: Node) -> Option<Seq<char>> {
    match info_of(node) {
        Some(info) => non_empty(info.container_runtime_version@),
        None => None,
    }
}

/// The machine ID that a node reports.
pub open spec fn machine_id_of(node: Node) -> Option<Seq<char>> {
    match info_of(node) {
        Some(info) => non_empty(info.machine_id@),
        None => None,
    }
}

impl NodeFacts {
    /// The facts that a node reports. One that it leaves empty is one it does not
    /// report.
    pub fn from_node(node: &Node) -> (r: Self)
        ensures
            r.name@ == (match node.name {
                Some(name) => name@,
                None => Seq::empty(),
            }),
            text::opt_text(r.container_runtime_version) == runtime_version_of(*node),
            text::opt_text(r.machine_id) == machine_id_of(*node),
    {
        let name: String = match &node.name {
            Some(name) => name.clone(),
            None => String::new(),
        };
        let mut container_runtime_version: Option<String> = None;
        let mut machine_id: Option<String> = None;
        if let Some(status) = &node.status {
            if let Some(info) = &status.node_info {
                if !info.container_runtime_version.as_str().is_empty() {
                    container_runtime_version = Some(info.container_runtime_version.clone());
                }
                if !info.machine_id.as_str().is_empty() {
                    machine_id = Some(info.machine_id.clone());
                }
            }
        }
        NodeFacts { name, container_runtime_version, machine_id }
    }
}

/// The state is a label, so a fleet can be searched for the nodes a rollout
/// failed on; the reason is an annotation, because a label value holds neither
/// its length nor its punctuation.
#[derive(Debug)]
pub struct ResultKeys {
    pub state: String,
    pub error: String,
    pub finished_at: String,
}

/// The state of a node whose Job or whose work around it failed.
pub const STATE_FAILED: &'static str = "failed";

/// The state of a node that a run finished on.
pub const STATE_SUCCEEDED: &'static str = "succeeded";

impl ResultKeys {
    /// The keys below a tracking prefix.
    pub fn with_prefix(prefix: &str) -> (r: Self)
        ensures
            r.state@ == key_below(label_prefix(prefix@), "result"@),
            r.error@ == key_below(label_prefix(prefix@), "error"@),
            r.finished_at@ == key_below(label_prefix(prefix@), "finished-at"@),
    {
        let prefix: &str = text::strip_end(text::trim(prefix), '/');
        ResultKeys {
            state: prefix.to_string().concat("/").concat("result"),
            error: prefix.to_string().concat("/").concat("error"),
            finished_at: prefix.to_string().concat("/").concat("finished-at"),
        }
    }
}

impl Clone for ResultKeys {
    fn clone(&self) -> (r: Self)
        ensures
            r == *self,
    {
        ResultKeys {
            state: self.state.clone(),
            error: self.error.clone(),
            finished_at: self.finished_at.clone(),
        }
    }
}

/// The names in a list where an entry may come without one.
pub open spec fn names_among(entries: Seq<Option<String>>) -> Seq<Seq<char>>
    decreases entries.len(),
{
    if entries.len() == 0 {
        Seq::empty()
    } else {
        match entries.last() {
            Some(name) => names_among(entries.drop_last()).push(name@),
            None => names_among(entries.drop_last()),
        }
    }
}

/// The runtime handlers that a node reports; nothing when it does not report the
/// field at all.
pub open spec fn served_by(node: Node) -> Option<Seq<Seq<char>>> {
    match node.status {
        Some(status) => match status.runtime_handlers {
            Some(entries) => Some(names_among(entries@)),
            None => None,
        },
        None => None,
    }
}

/// `None` only when the node does not report the field at all (below Kubernetes
/// 1.30, or a kubelet that does not publish it). An empty list is an answer, and
/// the answer is "nothing".
pub fn served_handlers(node: &Node) -> (r: Option<Vec<String>>)
    ensures
        match r {
            Some(list) => served_by(*node) == Some(text::texts(list@)),
            None => served_by(*node) is None,
        },
{
    let status = match &node.status {
        Some(status) => status,
        None => {
            return None;
        },
    };
    let entries: &Vec<Option<String>> = match &status.runtime_handlers {
        Some(entries) => entries,
        None => {
            return None;
        },
    };
    let mut r: Vec<String> = Vec::new();
    let mut i: usize = 0;
    assert(text::texts(r@) =~= names_among(entries@.take(0)));
    while i < entries.len()
        invariant
            i <= entries@.len(),
            text::texts(r@) == names_among(entries@.take(i as int)),
        decreases entries@.len() - i,
    {
        assert(entries@.take(i + 1).drop_last() =~= entries@.take(i as int));
        let ghost before = r@;
        if let Some(name) = &entries[i] {
            r.push(name.clone());
            assert(text::texts(r@) =~= text::texts(before).push(name@));
        }
        i = i + 1;
    }
    assert(entries@.take(entries@.len() as int) =~= entries@);
    Some(r)
}

/// What a node's answer says about the handlers a rollout was to install.
#[derive(Debug, PartialEq, Eq)]
pub enum HandlerVerdict {
    Serving { serving: Vec<String>, missing: Vec<String> },
    NotServing,
    Unanswerable,
}

/// The expected handlers that a node serves, in the order they are expected.
pub open spec fn serving_of(expected: Seq<Seq<char>>, served: Seq<Seq<char>>) -> Seq<Seq<char>> {
    expected.filter(|h: Seq<char>| served.contains(h))
}

/// The expected handlers that a node does not serve.
pub open spec fn missing_of(expected: Seq<Seq<char>>, served: Seq<Seq<char>>) -> Seq<Seq<char>> {
    expected.filter(|h: Seq<char>| !served.contains(h))
}

/// A node serves at least one of the expected handlers.
pub open spec fn serves_any(expected: Seq<Seq<char>>, served: Seq<Seq<char>>) -> bool {
    exists|i: int| 0 <= i < expected.len() && served.contains(#[trigger] expected[i])
}

/// Any one handler is enough: a caller cannot know a node's architecture, so it
/// names every handler the rollout could install and a node legitimately serves
/// only its own arch's subset. Serving *none* is the verdict worth failing on.
pub fn handler_verdict(expected: &[String], served: Option<&[String]>) -> (r: HandlerVerdict)
    ensures
        match served {
            None => r is Unanswerable,
            Some(list) => match r {
                HandlerVerdict::Serving { serving, missing } => {
                    &&& serves_any(text::texts(expected@), text::texts(list@))
                    &&& text::texts(serving@) == serving_of(
                        text::texts(expected@),
                        text::texts(list@),
                    )
                    &&& text::texts(missing@) == missing_of(
                        text::texts(expected@),
                        text::texts(list@),
                    )
                },
                HandlerVerdict::NotServing => !serves_any(
                    text::texts(expected@),
                    text::texts(list@),
                ),
                HandlerVerdict::Unanswerable => false,
            },
        },
{
    let list: &[String] = match served {
        Some(list) => list,
        None => {
            return HandlerVerdict::Unanswerable;
        },
    };
    let mut serving: Vec<String> = Vec::new();
    let mut missing: Vec<String> = Vec::new();
    let mut i: usize = 0;
    let ghost all = text::texts(expected@);
    let ghost have = text::texts(list@);
    proof {
        reveal_with_fuel(Seq::filter, 1);
        assert(text::texts(serving@) =~= serving_of(all.take(0), have));
        assert(text::texts(missing@) =~= missing_of(all.take(0), have));
    }
    while i < expected.len()
        invariant
            i <= expected@.len(),
            all == text::texts(expected@),
            have == text::texts(list@),
            text::texts(serving@) == serving_of(all.take(i as int), have),
            text::texts(missing@) == missing_of(all.take(i as int), have),
            serving@.len() == 0 ==> forall|j: int| 0 <= j < i ==> !have.contains(#[trigger] all[j]),
            serving@.len() > 0 ==> serves_any(all, have),
        decreases expected@.len() - i,
    {
        let ghost before_s = serving@;
        let ghost before_m = missing@;
        proof {
            reveal_with_fuel(Seq::filter, 1);
            assert(all.take(i + 1).drop_last() =~= all.take(i as int));
            assert(all.take(i + 1).last() == all[i as int]);
        }
        if text::contains(list, expected[i].as_str()) {
            serving.push(expected[i].clone());
            assert(text::texts(serving@) =~= text::texts(before_s).push(all[i as int]));
        } else {
            missing.push(expected[i].clone());
            assert(text::texts(missing@) =~= text::texts(before_m).push(all[i as int]));
        }
        i = i + 1;
    }
    assert(all.take(all.len() as int) =~= all);
    if serving.len() == 0 {
        HandlerVerdict::NotServing
    } else {
        HandlerVerdict::Serving { serving, missing }
    }
}

/// The status of the first condition of type `Ready`.
pub open spec fn ready_among(conditions: Seq<crate::objects::Condition>) -> Option<Seq<char>>
    decreases conditions.len(),
{
    if conditions.len() == 0 {
        None
    } else if conditions[0].type_@ == "Ready"@ {
        Some(conditions[0].status@)
    } else {
        ready_among(conditions.drop_first())
    }
}

/// Whether a node says that it is ready.
pub open spec fn ready_of(node: Node) -> Option<Seq<char>> {
    match node.status {
        Some(status) => match status.conditions {
            Some(conditions) => ready_among(conditions@),
            None => None,
        },
        None => None,
    }
}

/// What a node says about being ready: `True`, `False` or `Unknown`.
#[verifier::loop_isolation(false)]
pub fn node_ready_condition(node: &Node) -> (r: Option<String>)
    ensures
        text::opt_text(r) == ready_of(*node),
{
    let status = match &node.status {
        Some(status) => status,
        None => {
            return None;
        },
    };
    let conditions: &Vec<crate::objects::Condition> = match &status.conditions {
        Some(conditions) => conditions,
        None => {
            return None;
        },
    };
    let mut i: usize = 0;
    assert(conditions@.skip(0) =~= conditions@);
    while i < conditions.len()
        invariant
            i <= conditions@.len(),
            ready_among(conditions@) == ready_among(conditions@.skip(i as int)),
        decreases conditions@.len() - i,
    {
        assert(conditions@.skip(i as int).drop_first() =~= conditions@.skip(i + 1));
        if text::same(conditions[i].type_.as_str(), "Ready") {
            return Some(conditions[i].status.clone());
        }
        i = i + 1;
    }
    None
}

/// Whether a finished run already shows on a node. A node at the pending value is never
/// taken for a finished one, whatever value a run finishes with.
pub open spec fn is_satisfied_node(
    labelling: Option<NodeLabelling>,
    finished: Option<Seq<char>>,
    require_handlers: Seq<Seq<char>>,
    node: Node,
) -> bool {
    match (labelling, finished) {
        (Some(labelling), Some(finished)) => {
            &&& finished != labelling.pending_value@
            &&& forall|i: int|
                0 <= i < labelling.key_list().len() ==> labels::lookup(
                    labels::or_empty(node.labels),
                    #[trigger] labelling.key_list()[i],
                ) == Some(finished)
            &&& require_handlers.len() == 0 || match served_by(node) {
                Some(served) => serves_any(require_handlers, served),
                None => true,
            }
        },
        _ => false,
    }
}

/// What a map that may be missing holds under a key.
pub(crate) fn get_from<'a>(map: &'a Option<StringMap>, key: &str) -> (r: Option<&'a str>)
    ensures
        text::opt_str(r) == labels::lookup(labels::or_empty(*map), key@),
{
    match map {
        Some(map) => map.get(key),
        None => None,
    }
}

/// Whether a finished run already shows on this node.
///
/// The pending value does not count: a claimed node is one an earlier run did
/// not see through. Labels alone would, though, so the handlers the node
/// reports are read too - that is what catches a host rebuilt under a Node
/// object that kept its labels. A node reporting none was labelled without that
/// proof either, and failing it here would dispatch to it for ever.
#[verifier::loop_isolation(false)]
pub fn node_is_satisfied(
    labelling: Option<&NodeLabelling>,
    finished: Option<&str>,
    require_handlers: &[String],
    node: &Node,
) -> (r: bool)
    ensures
        r == is_satisfied_node(
            match labelling {
                Some(l) => Some(*l),
                None => None,
            },
            text::opt_str(finished),
            text::texts(require_handlers@),
            *node,
        ),
{
    let labelling: &NodeLabelling = match labelling {
        Some(labelling) => labelling,
        None => {
            return false;
        },
    };
    let finished: &str = match finished {
        Some(finished) => finished,
        None => {
            return false;
        },
    };
    if text::same(finished, labelling.pending_value.as_str()) {
        return false;
    }
    let keys: Vec<String> = labelling.keys();
    let ghost on_node = labels::or_empty(node.labels);
    let mut i: usize = 0;
    while i < keys.len()
        invariant
            i <= keys@.len(),
            text::texts(keys@) == labelling.key_list(),
            on_node == labels::or_empty(node.labels),
            forall|j: int|
                0 <= j < i ==> labels::lookup(on_node, #[trigger] labelling.key_list()[j]) == Some(
                    finished@,
                ),
        decreases keys@.len() - i,
    {
        assert(labelling.key_list()[i as int] == keys@[i as int]@);
        let holds: bool = match get_from(&node.labels, keys[i].as_str()) {
            Some(value) => text::same(value, finished),
            None => false,
        };
        if !holds {
            return false;
        }
        i = i + 1;
    }
    if require_handlers.len() == 0 {
        return true;
    }
    let served: Option<Vec<String>> = served_handlers(node);
    let verdict: HandlerVerdict = match &served {
        Some(list) => handler_verdict(require_handlers, Some(list.as_slice())),
        None => handler_verdict(require_handlers, None),
    };
    match verdict {
        HandlerVerdict::NotServing => false,
        _ => true,
    }
}

/// Whether a node is ready is what its first condition of the type `Ready` says, wherever
/// among its conditions that one stands.
pub proof fn law_readiness_is_read_wherever_it_stands(
    conditions: Seq<crate::objects::Condition>,
    at: int,
)
    requires
        0 <= at < conditions.len(),
        conditions[at].type_@ == "Ready"@,
        forall|j: int| 0 <= j < at ==> (#[trigger] conditions[j]).type_@ != "Ready"@,
    ensures
        ready_among(conditions) == Some(conditions[at].status@),
    decreases at,
{
    if at > 0 {
        let rest = conditions.drop_first();
        assert(conditions[0].type_@ != "Ready"@);
        assert forall|j: int| 0 <= j < at - 1 implies (#[trigger] rest[j]).type_@ != "Ready"@ by {
            assert(rest[j] == conditions[j + 1]);
        }
        law_readiness_is_read_wherever_it_stands(rest, at - 1);
    }
}

/// A node with no condition of the type `Ready` does not say whether it is.
pub proof fn law_without_the_condition_nothing_is_said(
    conditions: Seq<crate::objects::Condition>,
)
    requires
        forall|j: int| 0 <= j < conditions.len() ==> (#[trigger] conditions[j]).type_@ != "Ready"@,
    ensures
        ready_among(conditions) is None,
    decreases conditions.len(),
{
    if conditions.len() > 0 {
        let rest = conditions.drop_first();
        assert(conditions[0].type_@ != "Ready"@);
        assert forall|j: int| 0 <= j < rest.len() implies (#[trigger] rest[j]).type_@
            != "Ready"@ by {
            assert(rest[j] == conditions[j + 1]);
        }
        law_without_the_condition_nothing_is_said(rest);
    }
}

/// However a prefix is written, with white space around it or slashes behind it, the keys
/// below it are the same.
pub proof fn law_prefixes_are_written_one_way(written: Seq<char>, prefix: Seq<char>, slashes: Seq<char>)
    requires
        prefix.len() > 0,
        prefix.last() != '/',
        !text::is_space(prefix[0]),
        forall|i: int| 0 <= i < slashes.len() ==> #[trigger] slashes[i] == '/',
        slashes.len() == 0 ==> !text::is_space(prefix.last()),
        text::spells(written, prefix + slashes),
    ensures
        label_prefix(written) == prefix,
{
    let whole = prefix + slashes;
    assert(whole[0] == prefix[0]);
    if slashes.len() > 0 {
        assert(whole.last() == slashes[slashes.len() - 1]);
        text::law_marks_are_no_white_space('/');
    } else {
        assert(whole =~= prefix);
    }
    text::law_trimming_gives_bare_words(written, whole);
    text::law_stripping_takes_only_the_character(whole, '/');
    let kept = text::end_stripped(whole, '/');
    let n = prefix.len() as int;
    assert(whole[n - 1] != '/');
    assert(kept.len() >= n);
    if kept.len() > n {
        assert(kept.last() == whole[kept.len() - 1]);
        assert(kept.last() == slashes[kept.len() - 1 - n]);
    }
    assert(kept =~= prefix);
}

/// An instance goes by the name that it is given, without white space around it, and by
/// `default` where it is given none or nothing but white space.
pub proof fn law_instances_go_by_their_names(written: Seq<char>, name: Seq<char>)
    requires
        text::is_bare(name),
        text::spells(written, name),
    ensures
        instance_name(Some(written)) == if name.len() > 0 {
            name
        } else {
            "default"@
        },
        instance_name(None) == "default"@,
{
    text::law_trimming_gives_bare_words(written, name);
}

/// What a node reports of its software is passed on as it is, and what it leaves empty is
/// not reported.
pub proof fn law_reported_facts_are_passed_on(node: Node)
    ensures
        match node.status {
            Some(status) => match status.node_info {
                Some(info) => {
                    &&& runtime_version_of(node) == Some(info.container_runtime_version@)
                        || info.container_runtime_version@.len() == 0 && runtime_version_of(
                        node,
                    ) is None
                    &&& machine_id_of(node) == Some(info.machine_id@) || info.machine_id@.len() == 0
                        && machine_id_of(node) is None
                    &&& machine_id_of(node) is Some ==> info.machine_id@.len() > 0
                    &&& runtime_version_of(node) is Some
                        ==> info.container_runtime_version@.len() > 0
                },
                None => runtime_version_of(node) is None && machine_id_of(node) is None,
            },
            None => runtime_version_of(node) is None && machine_id_of(node) is None,
        },
{
}

/// The handlers that a verdict names as served are the expected ones that the node serves, and
/// those that it names as missing are the expected ones that it does not.
pub proof fn law_verdicts_name_the_right_handlers(
    expected: Seq<Seq<char>>,
    served: Seq<Seq<char>>,
    handler: Seq<char>,
)
    ensures
        serving_of(expected, served).contains(handler) <==> expected.contains(handler)
            && served.contains(handler),
        missing_of(expected, served).contains(handler) <==> expected.contains(handler)
            && !served.contains(handler),
    decreases expected.len(),
{
    reveal_with_fuel(Seq::filter, 1);
    if expected.len() > 0 {
        let rest = expected.drop_last();
        law_verdicts_name_the_right_handlers(rest, served, handler);
        let yes = serving_of(rest, served);
        let no = missing_of(rest, served);
        lemma_pushed(rest, expected.last(), handler);
        lemma_pushed(yes, expected.last(), handler);
        lemma_pushed(no, expected.last(), handler);
        assert(rest.push(expected.last()) =~= expected);
    }
}

/// A list with one more item holds that item and what it held.
proof fn lemma_pushed(list: Seq<Seq<char>>, item: Seq<char>, wanted: Seq<char>)
    ensures
        list.push(item).contains(wanted) <==> list.contains(wanted) || item == wanted,
{
    let more = list.push(item);
    if list.contains(wanted) {
        let i = choose|i: int| 0 <= i < list.len() && list[i] == wanted;
        assert(more[i] == wanted);
    }
    if item == wanted {
        assert(more[list.len() as int] == wanted);
    }
    if more.contains(wanted) && item != wanted {
        let i = choose|i: int| 0 <= i < more.len() && more[i] == wanted;
        assert(list[i] == wanted);
    }
}

} // verus!
