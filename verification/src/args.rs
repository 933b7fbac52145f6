//! The flags of a run, what they require of each other, and what they come to.

use crate::labels;
use crate::node_ops::NodeOps;
use crate::nodes;
use crate::nodes::{InstanceMarker, NodeLabelling};
use crate::text;
use vstd::prelude::*;
use vstd::string::*;

verus! {

/// The prefix of the labels stamped on created Jobs, unless a run says otherwise.
pub const DEFAULT_TRACKING_LABEL_PREFIX: &'static str = "k8s-job-dispatcher";

/// The flags of a run.
#[derive(Debug, Clone)]
pub struct Args {
    /// Path to a YAML file containing the batch/v1 Job to run on each node.
    pub job_template: String,
    /// Job template run on nodes this instance owns but which no longer match the
    /// selection.
    pub cleanup_job_template: Option<String>,
    /// Prefix for generated per-node Job names, also recorded as the owner label's value.
    pub name_prefix: String,
    /// Namespace to create the per-node Jobs in.
    pub namespace: Option<String>,
    /// Maximum number of per-node Jobs in flight at once.
    pub parallelism: usize,
    /// Label selectors picking target nodes; the target set is the union of the matches.
    pub node_selector: Vec<String>,
    /// Field selector picking target nodes, ANDed with the label selector.
    pub node_field_selector: Option<String>,
    /// Explicit comma-separated node names. Overrides the selectors and skips taint
    /// admission.
    pub nodes: Option<String>,
    /// Target matched nodes even when the template does not tolerate their taints.
    pub ignore_node_taints: bool,
    /// Seconds to keep re-resolving the target nodes while none is eligible yet.
    pub wait_for_nodes_secs: u64,
    /// Seconds the eligible set must stay unchanged before it is accepted.
    pub node_settle_secs: u64,
    /// Owner Job to add an ownerReference to.
    pub owner_job_name: Option<String>,
    /// Same owner, taken from the Job that created this pod.
    pub owner_job_from_pod: Option<String>,
    /// Exit without dispatching while another run of this name prefix is still working.
    pub yield_to_live_run: bool,
    /// Dispatch only to nodes that no finished run shows on yet.
    pub skip_satisfied_nodes: bool,
    /// Prefix for the labels stamped on created Jobs.
    pub tracking_label_prefix: String,
    /// Label key to write on a node.
    pub node_label_key: Option<String>,
    /// Value to set on the label key once a node's Job succeeded.
    pub node_label: Option<String>,
    /// Extra `key=value` to write alongside the label.
    pub extra_node_label: Vec<String>,
    /// Remove the label key, for cleanup runs.
    pub remove_node_label: bool,
    /// Set the label key to the pending value before creating a node's Job.
    pub claim_node_pending: bool,
    /// Value meaning "claimed, not finished".
    pub node_label_pending_value: String,
    /// Label-key prefix under which each instance marks the nodes it holds.
    pub instance_label_prefix: Option<String>,
    /// This instance's name below that prefix.
    pub multi_install_suffix: Option<String>,
    /// Comma-separated CRI runtime handlers a node must be serving before it is labelled.
    pub require_node_handlers: Option<String>,
    /// Comma-separated taints to lift after labelling a node.
    pub remove_node_taints: Option<String>,
    /// Seconds to wait for a node to report Ready before labelling it. 0 disables the wait.
    pub wait_node_ready_secs: u64,
    /// Warn when a node's kubelet `runtimeRequestTimeout` is below this many seconds. 0
    /// disables the check.
    pub kubelet_timeout_warn_secs: u64,
    /// Fail a node reporting no container runtime version.
    pub require_node_runtime_version: bool,
    /// Fail a node reporting no machine ID.
    pub require_node_machine_id: bool,
    /// Seconds between status polls.
    pub poll_interval_secs: u64,
    /// Page size used when listing nodes.
    pub node_page_size: u32,
    /// Not a flag: set on the copy of these arguments that cleans the nodes this
    /// instance owns but no longer selects, where a node back in the selection is
    /// one to leave alone rather than one to act on.
    pub removed_node_cleanup: bool,
}

/// Why a run's flags cannot be followed.
#[derive(Debug)]
pub enum FlagError {
    YieldWithoutOwner,
    SkipWithoutLabel,
    TwoOwners,
    NoOwnershipLabel,
    ExtraLabelNotPair { entry: String },
    ExtraLabelTwice { key: String },
    ExtraLabelIsOwnership { key: String },
    ExtraLabelUnused,
    LabelKeyMissing,
    InstanceWithoutLabel,
    LabelKeyAlone,
    SuffixWithoutPrefix { key: String },
    TaintsWithoutLabel,
}

impl FlagError {
    /// What is said of the flags.
    pub open spec fn text(self) -> Seq<char> {
        match self {
            FlagError::YieldWithoutOwner =>
                "--yield-to-live-run needs --owner-job-name or --owner-job-from-pod"@,
            FlagError::SkipWithoutLabel => "--skip-satisfied-nodes needs --node-label"@,
            FlagError::TwoOwners =>
                "--owner-job-name cannot be used together with --owner-job-from-pod"@,
            FlagError::NoOwnershipLabel =>
                "--cleanup-job-template needs a label recording which nodes this instance owns, so it needs --node-label-key together with --node-label or --claim-node-pending; without one there is no way to tell a node this instance configured from any other"@,
            FlagError::ExtraLabelNotPair { entry } => "--extra-node-label "@ + text::debug_form(
                entry@,
            )
                + " is not key=value; give the label to write, e.g. --extra-node-label=example.com/ready=true"@,
            FlagError::ExtraLabelTwice { key } => "--extra-node-label "@ + key@
                + " was given more than once, with two values to write"@,
            FlagError::ExtraLabelIsOwnership { key } => "--extra-node-label "@ + key@
                + " is already written as an ownership key by --node-label-key or --instance-label-prefix; give it a key of its own"@,
            FlagError::ExtraLabelUnused =>
                "--extra-node-label needs --node-label or --remove-node-label: it is written alongside the first and removed alongside the second, and neither happens without one of them"@,
            FlagError::LabelKeyMissing =>
                "--node-label-key is required by --node-label, --remove-node-label and --claim-node-pending: they supply the label's value, not its key"@,
            FlagError::InstanceWithoutLabel =>
                "--instance-label-prefix and --multi-install-suffix only mark the nodes this instance holds, which needs --node-label-key and one of --node-label, --remove-node-label or --claim-node-pending"@,
            FlagError::LabelKeyAlone =>
                "--node-label-key writes nothing on its own; pass one of --node-label, --remove-node-label or --claim-node-pending to say what to write"@,
            FlagError::SuffixWithoutPrefix { key } =>
                "--multi-install-suffix names this instance below --instance-label-prefix, so it needs that flag too; without it there is a single instance owning "@
                + key@ + " outright"@,
            FlagError::TaintsWithoutLabel =>
                "--remove-node-taints needs --node-label: a start-up taint may only be lifted once the node is labelled, otherwise workloads reach it before the label that is supposed to gate them"@,
        }
    }

    /// Says what is wrong with the flags.
    pub fn message(&self) -> (r: String)
        ensures
            r@ == self.text(),
    {
        match self {
            FlagError::YieldWithoutOwner =>
                "--yield-to-live-run needs --owner-job-name or --owner-job-from-pod".to_string(),
            FlagError::SkipWithoutLabel => "--skip-satisfied-nodes needs --node-label".to_string(),
            FlagError::TwoOwners =>
                "--owner-job-name cannot be used together with --owner-job-from-pod".to_string(),
            FlagError::NoOwnershipLabel =>
                "--cleanup-job-template needs a label recording which nodes this instance owns, so it needs --node-label-key together with --node-label or --claim-node-pending; without one there is no way to tell a node this instance configured from any other".to_string(),
            FlagError::ExtraLabelNotPair { entry } => "--extra-node-label ".to_string().concat(
                text::quoted(entry.as_str()).as_str(),
            ).concat(
                " is not key=value; give the label to write, e.g. --extra-node-label=example.com/ready=true",
            ),
            FlagError::ExtraLabelTwice { key } => "--extra-node-label ".to_string().concat(
                key.as_str(),
            ).concat(" was given more than once, with two values to write"),
            FlagError::ExtraLabelIsOwnership { key } => "--extra-node-label ".to_string().concat(
                key.as_str(),
            ).concat(
                " is already written as an ownership key by --node-label-key or --instance-label-prefix; give it a key of its own",
            ),
            FlagError::ExtraLabelUnused =>
                "--extra-node-label needs --node-label or --remove-node-label: it is written alongside the first and removed alongside the second, and neither happens without one of them".to_string(),
            FlagError::LabelKeyMissing =>
                "--node-label-key is required by --node-label, --remove-node-label and --claim-node-pending: they supply the label's value, not its key".to_string(),
            FlagError::InstanceWithoutLabel =>
                "--instance-label-prefix and --multi-install-suffix only mark the nodes this instance holds, which needs --node-label-key and one of --node-label, --remove-node-label or --claim-node-pending".to_string(),
            FlagError::LabelKeyAlone =>
                "--node-label-key writes nothing on its own; pass one of --node-label, --remove-node-label or --claim-node-pending to say what to write".to_string(),
            FlagError::SuffixWithoutPrefix { key } =>
                "--multi-install-suffix names this instance below --instance-label-prefix, so it needs that flag too; without it there is a single instance owning ".to_string().concat(
                key.as_str(),
            ).concat(" outright"),
            FlagError::TaintsWithoutLabel =>
                "--remove-node-taints needs --node-label: a start-up taint may only be lifted once the node is labelled, otherwise workloads reach it before the label that is supposed to gate them".to_string(),
        }
    }
}

impl Args {
    /// The flags of a run that was given only the two that it must be given.
    pub fn new(job_template: String, name_prefix: String) -> (r: Self)
        ensures
            r.job_template == job_template,
            r.name_prefix == name_prefix,
            r.cleanup_job_template is None,
            r.namespace is None,
            r.parallelism == 100,
            r.node_selector@.len() == 0,
            r.node_field_selector is None,
            r.nodes is None,
            !r.ignore_node_taints,
            r.wait_for_nodes_secs == 0,
            r.node_settle_secs == 15,
            r.owner_job_name is None,
            r.owner_job_from_pod is None,
            !r.yield_to_live_run,
            !r.skip_satisfied_nodes,
            r.tracking_label_prefix@ == DEFAULT_TRACKING_LABEL_PREFIX@,
            r.node_label_key is None,
            r.node_label is None,
            r.extra_node_label@.len() == 0,
            !r.remove_node_label,
            !r.claim_node_pending,
            r.node_label_pending_value@ == nodes::DEFAULT_PENDING_LABEL_VALUE@,
            r.instance_label_prefix is None,
            r.multi_install_suffix is None,
            r.require_node_handlers is None,
            r.remove_node_taints is None,
            r.wait_node_ready_secs == 0,
            r.kubelet_timeout_warn_secs == 0,
            !r.require_node_runtime_version,
            !r.require_node_machine_id,
            r.poll_interval_secs == 5,
            r.node_page_size == 500,
            !r.removed_node_cleanup,
    {
        Args {
            job_template,
            cleanup_job_template: None,
            name_prefix,
            namespace: None,
            parallelism: 100,
            node_selector: Vec::new(),
            node_field_selector: None,
            nodes: None,
            ignore_node_taints: false,
            wait_for_nodes_secs: 0,
            node_settle_secs: 15,
            owner_job_name: None,
            owner_job_from_pod: None,
            yield_to_live_run: false,
            skip_satisfied_nodes: false,
            tracking_label_prefix: DEFAULT_TRACKING_LABEL_PREFIX.to_string(),
            node_label_key: None,
            node_label: None,
            extra_node_label: Vec::new(),
            remove_node_label: false,
            claim_node_pending: false,
            node_label_pending_value: nodes::DEFAULT_PENDING_LABEL_VALUE.to_string(),
            instance_label_prefix: None,
            multi_install_suffix: None,
            require_node_handlers: None,
            remove_node_taints: None,
            wait_node_ready_secs: 0,
            kubelet_timeout_warn_secs: 0,
            require_node_runtime_version: false,
            require_node_machine_id: false,
            poll_interval_secs: 5,
            node_page_size: 500,
            removed_node_cleanup: false,
        }
    }

    /// What the flags require of each other: the owner Job is either named or taken from
    /// a pod, standing aside needs an owner to compare against, and skipping satisfied
    /// nodes needs the label that says so.
    pub fn check(&self) -> (r: Result<(), FlagError>)
        ensures
            check_gives(*self, r),
    {
        if self.owner_job_name.is_some() && self.owner_job_from_pod.is_some() {
            return Err(FlagError::TwoOwners);
        }
        if self.yield_to_live_run && self.owner_job_name.is_none()
            && self.owner_job_from_pod.is_none() {
            return Err(FlagError::YieldWithoutOwner);
        }
        if self.skip_satisfied_nodes && self.node_label.is_none() {
            return Err(FlagError::SkipWithoutLabel);
        }
        Ok(())
    }

    /// Seconds between two polls: what the flags say, but at least one.
    pub fn poll_secs(&self) -> (r: u64)
        ensures
            r == (if self.poll_interval_secs < 1 {
                1
            } else {
                self.poll_interval_secs
            }),
    {
        if self.poll_interval_secs < 1 {
            1
        } else {
            self.poll_interval_secs
        }
    }

    /// How many nodes are listed at a time: what the flags say, but at least one.
    pub fn page_size(&self) -> (r: u32)
        ensures
            r == (if self.node_page_size < 1 {
                1
            } else {
                self.node_page_size
            }),
    {
        if self.node_page_size < 1 {
            1
        } else {
            self.node_page_size
        }
    }
}

/// Which nodes this instance owns has to be recorded somewhere before the ones it
/// no longer selects can be found again.
pub fn cleanup_ownership_key(labelling: Option<&NodeLabelling>) -> (r: Result<&str, FlagError>)
    ensures
        match labelling {
            Some(labelling) => r matches Ok(key) && key@ == labelling.ownership(),
            None => r == Err::<&str, FlagError>(FlagError::NoOwnershipLabel),
        },
{
    match labelling {
        Some(labelling) => Ok(labelling.ownership_key()),
        None => Err(FlagError::NoOwnershipLabel),
    }
}

/// The pair that an extra label is given as: split on the first `=`, so a value
/// containing one survives, and nothing where there is no key.
pub open spec fn label_pair(entry: Seq<char>) -> Option<(Seq<char>, Seq<char>)> {
    match text::split_at_first(entry, '=') {
        Some((key, value)) => if text::trimmed(key).len() > 0 {
            Some((text::trimmed(key), value))
        } else {
            None
        },
        None => None,
    }
}

/// The key of the pair that an extra label is given as.
pub open spec fn key_of(entry: Seq<char>) -> Seq<char> {
    match label_pair(entry) {
        Some((key, value)) => key,
        None => Seq::empty(),
    }
}

/// Whether an entry is a pair with a key that none of the entries before it has.
pub open spec fn is_new_pair(entries: Seq<Seq<char>>, i: int) -> bool {
    &&& label_pair(entries[i]) is Some
    &&& forall|j: int|
        0 <= j < i ==> (label_pair(#[trigger] entries[j]) is Some ==> key_of(entries[j])
            != key_of(entries[i]))
}

/// The first `n` entries are pairs with keys of their own.
pub open spec fn all_new_pairs(entries: Seq<Seq<char>>, n: int) -> bool {
    forall|i: int| 0 <= i < n ==> is_new_pair(entries, i)
}

/// The pairs that a list of entries is made of.
pub open spec fn label_pairs(entries: Seq<Seq<char>>) -> Seq<(Seq<char>, Seq<char>)> {
    entries.map_values(|entry: Seq<char>| label_pair(entry)->0)
}

/// Whether an error is about the entry at a position, the first that is no new pair.
pub open spec fn blames(entries: Seq<Seq<char>>, n: int, error: FlagError) -> bool {
    &&& 0 <= n < entries.len()
    &&& all_new_pairs(entries, n)
    &&& match error {
        FlagError::ExtraLabelNotPair { entry } => label_pair(entries[n]) is None && entry@
            == entries[n],
        FlagError::ExtraLabelTwice { key } => label_pair(entries[n]) is Some && !is_new_pair(
            entries,
            n,
        ) && key@ == key_of(entries[n]),
        _ => false,
    }
}

/// Split on the first `=`, so a value containing one survives.
///
/// The same key twice is rejected: one patch cannot set a key to two values,
/// and the one that loses would then be waited on for ever.
#[verifier::loop_isolation(false)]
pub fn extra_labels_from_args(values: &[String]) -> (r: Result<Vec<(String, String)>, FlagError>)
    ensures
        match r {
            Ok(pairs) => all_new_pairs(text::texts(values@), values@.len() as int) && labels::pairs(
                pairs@,
            ) == label_pairs(text::texts(values@)),
            Err(error) => exists|n: int| blames(text::texts(values@), n, error),
        },
{
    let mut pairs: Vec<(String, String)> = Vec::new();
    let ghost all = text::texts(values@);
    let mut i: usize = 0;
    while i < values.len()
        invariant
            i <= values@.len(),
            all == text::texts(values@),
            all_new_pairs(all, i as int),
            pairs@.len() == i,
            forall|j: int|
                0 <= j < i ==> label_pair(#[trigger] all[j]) == Some(
                    (pairs@[j].0@, pairs@[j].1@),
                ),
        decreases values@.len() - i,
    {
        let entry: &str = values[i].as_str();
        assert(all[i as int] == entry@);
        let (key, value): (&str, &str) = match text::split_once(entry, '=') {
            Some((key, value)) => (text::trim(key), value),
            None => {
                let error = FlagError::ExtraLabelNotPair { entry: values[i].clone() };
                assert(blames(all, i as int, error));
                return Err(error);
            },
        };
        if key.is_empty() {
            let error = FlagError::ExtraLabelNotPair { entry: values[i].clone() };
            assert(blames(all, i as int, error));
            return Err(error);
        }
        let mut k: usize = 0;
        while k < pairs.len()
            invariant
                k <= pairs@.len(),
                forall|j: int| 0 <= j < k ==> (#[trigger] pairs@[j]).0@ != key@,
            decreases pairs@.len() - k,
        {
            if text::same(pairs[k].0.as_str(), key) {
                let error = FlagError::ExtraLabelTwice { key: key.to_string() };
                assert(key_of(all[k as int]) == key_of(all[i as int]));
                assert(blames(all, i as int, error));
                return Err(error);
            }
            k = k + 1;
        }
        assert forall|j: int| 0 <= j < i && label_pair(#[trigger] all[j]) is Some implies key_of(
            all[j],
        ) != key_of(all[i as int]) by {
            assert(pairs@[j].0@ != key@);
        }
        assert(is_new_pair(all, i as int));
        pairs.push((key.to_string(), value.to_string()));
        i = i + 1;
    }
    assert(labels::pairs(pairs@) =~= label_pairs(all));
    Ok(pairs)
}

/// The first extra label whose key this instance writes itself.
pub open spec fn first_clash(
    keys: Seq<Seq<char>>,
    extra: Seq<(Seq<char>, Seq<char>)>,
) -> Option<Seq<char>>
    decreases extra.len(),
{
    if extra.len() == 0 {
        None
    } else if keys.contains(extra[0].0) {
        Some(extra[0].0)
    } else {
        first_clash(keys, extra.drop_first())
    }
}

/// A shared key would let the extra label's unconditional cleanup take away
/// what the ownership bookkeeping had decided to keep.
#[verifier::loop_isolation(false)]
pub fn check_extra_label_keys(
    labelling: Option<&NodeLabelling>,
    extra: &[(String, String)],
) -> (r: Result<(), FlagError>)
    ensures
        match labelling {
            None => r is Ok,
            Some(labelling) => match first_clash(labelling.key_list(), labels::pairs(extra@)) {
                None => r is Ok,
                Some(clash) => r matches Err(FlagError::ExtraLabelIsOwnership { key }) && key@
                    == clash,
            },
        },
{
    let labelling: &NodeLabelling = match labelling {
        Some(labelling) => labelling,
        None => {
            return Ok(());
        },
    };
    let keys: Vec<String> = labelling.keys();
    let ghost all = labels::pairs(extra@);
    let mut i: usize = 0;
    assert(all.skip(0) =~= all);
    while i < extra.len()
        invariant
            i <= extra@.len(),
            all == labels::pairs(extra@),
            first_clash(labelling.key_list(), all) == first_clash(
                labelling.key_list(),
                all.skip(i as int),
            ),
        decreases extra@.len() - i,
    {
        assert(all.skip(i as int).drop_first() =~= all.skip(i + 1));
        assert(all.skip(i as int)[0].0 == extra@[i as int].0@);
        if text::contains(keys.as_slice(), extra[i].0.as_str()) {
            return Err(FlagError::ExtraLabelIsOwnership { key: extra[i].0.clone() });
        }
        i = i + 1;
    }
    Ok(())
}

/// Neither written nor removed without one of the two flags that do it.
pub fn check_extra_label_flags(args: &Args) -> (r: Result<(), FlagError>)
    ensures
        if args.extra_node_label@.len() > 0 && args.node_label is None && !args.remove_node_label {
            r == Err::<(), FlagError>(FlagError::ExtraLabelUnused)
        } else {
            r is Ok
        },
{
    let wants_labelling: bool = args.node_label.is_some() || args.remove_node_label;
    if args.extra_node_label.len() > 0 && !wants_labelling {
        return Err(FlagError::ExtraLabelUnused);
    }
    Ok(())
}

/// The items of a comma-separated list: without white space around them, and without
/// the empty ones.
pub open spec fn items_of(list: Seq<char>) -> Seq<Seq<char>> {
    text::split_at_each(list, ',').map_values(|item: Seq<char>| text::trimmed(item)).filter(
        |item: Seq<char>| item.len() > 0,
    )
}

/// The items of a comma-separated list that may be missing.
pub open spec fn items_of_opt(list: Option<Seq<char>>) -> Seq<Seq<char>> {
    match list {
        Some(list) => items_of(list),
        None => Seq::empty(),
    }
}

/// The items of a comma-separated list that may be missing.
pub fn comma_separated(value: Option<&str>) -> (r: Vec<String>)
    ensures
        text::texts(r@) == items_of_opt(text::opt_str(value)),
{
    let mut items: Vec<String> = Vec::new();
    let value: &str = match value {
        Some(value) => value,
        None => {
            assert(text::texts(items@) =~= Seq::empty());
            return items;
        },
    };
    let parts: Vec<String> = text::split(value, ',');
    let ghost f = |item: Seq<char>| text::trimmed(item);
    let ghost all = text::split_at_each(value@, ',').map_values(f);
    let ghost full = |item: Seq<char>| item.len() > 0;
    let mut i: usize = 0;
    proof {
        reveal_with_fuel(Seq::filter, 1);
        assert(text::texts(items@) =~= all.take(0).filter(full));
        assert(all.len() == parts@.len());
    }
    while i < parts.len()
        invariant
            i <= parts@.len(),
            f == (|item: Seq<char>| text::trimmed(item)),
            all == text::texts(parts@).map_values(f),
            full == (|item: Seq<char>| item.len() > 0),
            text::texts(items@) == all.take(i as int).filter(full),
        decreases parts@.len() - i,
    {
        let ghost before = items@;
        let item: &str = text::trim(parts[i].as_str());
        proof {
            reveal_with_fuel(Seq::filter, 1);
            assert(all.take(i + 1).drop_last() =~= all.take(i as int));
            assert(all.take(i + 1).last() == item@);
        }
        if !item.is_empty() {
            items.push(item.to_string());
            assert(text::texts(items@) =~= text::texts(before).push(item@));
        }
        i = i + 1;
    }
    assert(all.take(all.len() as int) =~= all);
    items
}

/// Whether the flags ask for a label to be written on nodes at all.
pub open spec fn wants_labelling(args: Args) -> bool {
    args.node_label is Some || args.remove_node_label || args.claim_node_pending
}

/// The label key that the flags give, without white space around it.
pub open spec fn label_key(args: Args) -> Option<Seq<char>> {
    match args.node_label_key {
        Some(key) => if text::trimmed(key@).len() > 0 {
            Some(text::trimmed(key@))
        } else {
            None
        },
        None => None,
    }
}

/// Whether a labelling is the one that the flags describe.
pub open spec fn is_labelling(args: Args, labelling: NodeLabelling) -> bool {
    &&& label_key(args) == Some(labelling.key@)
    &&& labelling.pending_value@ == args.node_label_pending_value@
    &&& match args.instance_label_prefix {
        None => labelling.instance is None,
        Some(prefix) => labelling.instance matches Some(marker) && marker.prefix_text()
            == nodes::label_prefix(prefix@) && marker.key_text() == nodes::key_below(
            nodes::label_prefix(prefix@),
            nodes::instance_name(text::opt_text(args.multi_install_suffix)),
        ),
    }
}

/// A borrowed text that may be missing.
fn borrowed(content: &Option<String>) -> (r: Option<&str>)
    ensures
        text::opt_str(r) == text::opt_text(*content),
{
    match content {
        Some(content) => Some(content.as_str()),
        None => None,
    }
}

/// The run writes the caller's key, never one of its own choosing, so a
/// value without a key is rejected rather than guessed at.
pub fn labelling_from_args(args: &Args) -> (r: Result<Option<NodeLabelling>, FlagError>)
    ensures
        match label_key(*args) {
            None => if wants_labelling(*args) {
                r == Err::<Option<NodeLabelling>, FlagError>(FlagError::LabelKeyMissing)
            } else if args.instance_label_prefix is Some || args.multi_install_suffix is Some {
                r == Err::<Option<NodeLabelling>, FlagError>(FlagError::InstanceWithoutLabel)
            } else {
                r == Ok::<Option<NodeLabelling>, FlagError>(None)
            },
            Some(found) => if !wants_labelling(*args) {
                r == Err::<Option<NodeLabelling>, FlagError>(FlagError::LabelKeyAlone)
            } else if args.multi_install_suffix is Some && args.instance_label_prefix is None {
                r matches Err(FlagError::SuffixWithoutPrefix { key }) && key@ == found
            } else {
                r matches Ok(Some(labelling)) && is_labelling(*args, labelling)
            },
        },
{
    let wants: bool = args.node_label.is_some() || args.remove_node_label
        || args.claim_node_pending;
    let key: &str = match &args.node_label_key {
        Some(key) => text::trim(key.as_str()),
        None => "",
    };
    proof {
        reveal_strlit("");
    }
    if key.is_empty() {
        if wants {
            return Err(FlagError::LabelKeyMissing);
        }
        if args.instance_label_prefix.is_some() || args.multi_install_suffix.is_some() {
            return Err(FlagError::InstanceWithoutLabel);
        }
        return Ok(None);
    }
    if !wants {
        return Err(FlagError::LabelKeyAlone);
    }
    if args.multi_install_suffix.is_some() && args.instance_label_prefix.is_none() {
        return Err(FlagError::SuffixWithoutPrefix { key: key.to_string() });
    }
    let instance: Option<InstanceMarker> = match &args.instance_label_prefix {
        Some(prefix) => Some(
            InstanceMarker::new(prefix.as_str(), borrowed(&args.multi_install_suffix)),
        ),
        None => None,
    };
    Ok(
        Some(
            NodeLabelling {
                key: key.to_string(),
                pending_value: args.node_label_pending_value.clone(),
                instance,
            },
        ),
    )
}

/// Lifting a start-up taint before the node carries the label meant to gate the
/// workloads it keeps away would let them arrive ungated.
pub fn check_taint_flags(args: &Args) -> (r: Result<(), FlagError>)
    ensures
        if items_of_opt(text::opt_text(args.remove_node_taints)).len() > 0 && args.node_label is None {
            r == Err::<(), FlagError>(FlagError::TaintsWithoutLabel)
        } else {
            r is Ok
        },
{
    let taints: Vec<String> = comma_separated(borrowed(&args.remove_node_taints));
    assert(text::texts(taints@).len() == taints@.len());
    if taints.len() > 0 && args.node_label.is_none() {
        return Err(FlagError::TaintsWithoutLabel);
    }
    Ok(())
}

/// A number of seconds, where none is no wait.
pub open spec fn some_secs(secs: u64) -> Option<u64> {
    if secs > 0 {
        Some(secs)
    } else {
        None
    }
}

/// Whether the work around each Job is what the flags describe.
pub open spec fn is_work(args: Args, ops: NodeOps) -> bool {
    &&& match ops.labelling {
        Some(labelling) => is_labelling(args, labelling),
        None => label_key(args) is None,
    }
    &&& ops.label_value == args.node_label
    &&& labels::pairs(ops.extra_labels@) == label_pairs(text::texts(args.extra_node_label@))
    &&& ops.remove_label == args.remove_node_label
    &&& ops.claim_pending == args.claim_node_pending
    &&& text::texts(ops.remove_taints@) == items_of_opt(text::opt_text(args.remove_node_taints))
    &&& text::texts(ops.require_handlers@) == items_of_opt(
        text::opt_text(args.require_node_handlers),
    )
    &&& ops.wait_ready == some_secs(args.wait_node_ready_secs)
    &&& ops.kubelet_timeout_warn == some_secs(args.kubelet_timeout_warn_secs)
    &&& ops.result_keys.state@ == nodes::key_below(
        nodes::label_prefix(args.tracking_label_prefix@),
        "result"@,
    )
    &&& ops.result_keys.error@ == nodes::key_below(
        nodes::label_prefix(args.tracking_label_prefix@),
        "error"@,
    )
    &&& ops.result_keys.finished_at@ == nodes::key_below(
        nodes::label_prefix(args.tracking_label_prefix@),
        "finished-at"@,
    )
}

/// Whether taints are to be lifted from nodes that are not labelled.
pub open spec fn lifts_unlabelled(args: Args) -> bool {
    items_of_opt(text::opt_text(args.remove_node_taints)).len() > 0 && args.node_label is None
}

/// Whether extra labels are given that nothing writes and nothing removes.
pub open spec fn extra_unused(args: Args) -> bool {
    args.extra_node_label@.len() > 0 && args.node_label is None && !args.remove_node_label
}

/// Whether the flags describe a labelling, or none at all.
pub open spec fn labelling_holds(args: Args) -> bool {
    match label_key(args) {
        None => !wants_labelling(args) && args.instance_label_prefix is None
            && args.multi_install_suffix is None,
        Some(_) => wants_labelling(args) && (args.multi_install_suffix is None
            || args.instance_label_prefix is Some),
    }
}

/// The keys that the flags make this instance write.
pub open spec fn written_keys(args: Args) -> Seq<Seq<char>> {
    match (label_key(args), args.instance_label_prefix) {
        (None, _) => Seq::empty(),
        (Some(key), None) => seq![key],
        (Some(key), Some(prefix)) => seq![
            key,
            nodes::key_below(
                nodes::label_prefix(prefix@),
                nodes::instance_name(text::opt_text(args.multi_install_suffix)),
            ),
        ],
    }
}

/// What the flags make of the work around each Job, or which of them is refused.
pub open spec fn work_gives(args: Args, r: Result<NodeOps, FlagError>) -> bool {
    let entries = text::texts(args.extra_node_label@);
    let sound = !lifts_unlabelled(args) && !extra_unused(args);
    let paired = all_new_pairs(entries, entries.len() as int);
    let clash = first_clash(written_keys(args), label_pairs(entries));
    match r {
        Ok(ops) => sound && labelling_holds(args) && paired && clash is None && is_work(
            args,
            ops,
        ),
        Err(FlagError::TaintsWithoutLabel) => lifts_unlabelled(args),
        Err(FlagError::ExtraLabelUnused) => !lifts_unlabelled(args) && extra_unused(args),
        Err(FlagError::LabelKeyMissing) => sound && label_key(args) is None
            && wants_labelling(args),
        Err(FlagError::InstanceWithoutLabel) => sound && label_key(args) is None
            && !wants_labelling(args) && !labelling_holds(args),
        Err(FlagError::LabelKeyAlone) => sound && label_key(args) is Some
            && !wants_labelling(args),
        Err(FlagError::SuffixWithoutPrefix { key }) => sound && label_key(args) == Some(
            key@,
        ) && wants_labelling(args) && !labelling_holds(args),
        Err(FlagError::ExtraLabelIsOwnership { key }) => sound && labelling_holds(args)
            && paired && clash == Some(key@),
        Err(error) => sound && labelling_holds(args) && exists|n: int|
            blames(entries, n, error),
    }
}

/// What the flags make of the work around each Job.
pub fn node_ops_from_args(args: &Args) -> (r: Result<NodeOps, FlagError>)
    ensures
        work_gives(*args, r),
{
    if let Err(error) = check_taint_flags(args) {
        return Err(error);
    }
    if let Err(error) = check_extra_label_flags(args) {
        return Err(error);
    }
    let labelling: Option<NodeLabelling> = match labelling_from_args(args) {
        Ok(labelling) => labelling,
        Err(error) => {
            return Err(error);
        },
    };
    let extra_labels: Vec<(String, String)> = match extra_labels_from_args(
        args.extra_node_label.as_slice(),
    ) {
        Ok(extra_labels) => extra_labels,
        Err(error) => {
            return Err(error);
        },
    };
    let checked: Result<(), FlagError> = match &labelling {
        Some(labelling) => {
            assert(labelling.key_list() =~= written_keys(*args));
            check_extra_label_keys(Some(labelling), extra_labels.as_slice())
        },
        None => {
            proof {
                lemma_no_keys_no_clash(labels::pairs(extra_labels@));
            }
            Ok(())
        },
    };
    if let Err(error) = checked {
        return Err(error);
    }
    let mut ops: NodeOps = NodeOps::new(args.tracking_label_prefix.as_str());
    ops.labelling = labelling;
    ops.label_value = text::copy_opt(&args.node_label);
    ops.extra_labels = extra_labels;
    ops.remove_label = args.remove_node_label;
    ops.claim_pending = args.claim_node_pending;
    ops.remove_taints = comma_separated(borrowed(&args.remove_node_taints));
    ops.require_handlers = comma_separated(borrowed(&args.require_node_handlers));
    if args.wait_node_ready_secs > 0 {
        ops.wait_ready = Some(args.wait_node_ready_secs);
    }
    if args.kubelet_timeout_warn_secs > 0 {
        ops.kubelet_timeout_warn = Some(args.kubelet_timeout_warn_secs);
    }
    Ok(ops)
}

/// Nothing clashes with no keys.
proof fn lemma_no_keys_no_clash(extra: Seq<(Seq<char>, Seq<char>)>)
    ensures
        first_clash(Seq::empty(), extra) is None,
    decreases extra.len(),
{
    if extra.len() > 0 {
        lemma_no_keys_no_clash(extra.drop_first());
    }
}

/// A run whose flags hold together keeps its extra labels apart from the keys that
/// record which nodes it owns.
pub proof fn law_sound_flags_keep_keys_apart(args: Args, ops: NodeOps)
    requires
        is_work(args, ops),
        first_clash(written_keys(args), label_pairs(text::texts(args.extra_node_label@))) is None,
        ops.labelling is Some,
    ensures
        forall|i: int|
            0 <= i < ops.extra_labels@.len() ==> !ops.labelling->0.key_list().contains(
                (#[trigger] ops.extra_labels@[i]).0@,
            ),
{
    let extra = labels::pairs(ops.extra_labels@);
    let labelling = ops.labelling->0;
    assert(labelling.key_list() =~= written_keys(args));
    lemma_no_clash(written_keys(args), extra);
    assert forall|i: int| 0 <= i < ops.extra_labels@.len() implies !labelling.key_list().contains(
        (#[trigger] ops.extra_labels@[i]).0@,
    ) by {
        assert(extra[i].0 == ops.extra_labels@[i].0@);
    }
}

/// Where nothing clashes, no extra label has one of the keys.
proof fn lemma_no_clash(keys: Seq<Seq<char>>, extra: Seq<(Seq<char>, Seq<char>)>)
    requires
        first_clash(keys, extra) is None,
    ensures
        forall|i: int| 0 <= i < extra.len() ==> !keys.contains((#[trigger] extra[i]).0),
    decreases extra.len(),
{
    if extra.len() > 0 {
        lemma_no_clash(keys, extra.drop_first());
        assert forall|i: int| 0 <= i < extra.len() implies !keys.contains(
            (#[trigger] extra[i]).0,
        ) by {
            if i > 0 {
                assert(extra.drop_first()[i - 1] == extra[i]);
            }
        }
    }
}

/// A run that lifts taints labels the nodes it lifts them from.
pub proof fn law_sound_flags_lift_only_from_labelled_nodes(args: Args, ops: NodeOps)
    requires
        is_work(args, ops),
        !lifts_unlabelled(args),
        labelling_holds(args),
    ensures
        ops.remove_taints@.len() > 0 ==> ops.label_value is Some && ops.labelling is Some,
{
    assert(text::texts(ops.remove_taints@).len() == ops.remove_taints@.len());
}

/// The namespace that the per-node Jobs go into: the flag, then the pod's own, then the
/// service account's, then `default`. What is only white space says nothing.
pub open spec fn namespace_of(
    flag: Option<Seq<char>>,
    pod: Option<Seq<char>>,
    account: Option<Seq<char>>,
) -> Seq<char> {
    if flag is Some && text::trimmed(flag->0).len() > 0 {
        flag->0
    } else if pod is Some && text::trimmed(pod->0).len() > 0 {
        pod->0
    } else if account is Some && text::trimmed(account->0).len() > 0 {
        text::trimmed(account->0)
    } else {
        "default"@
    }
}

/// Whether a text says anything but white space.
fn says_something(content: &Option<String>) -> (r: bool)
    ensures
        r == (*content is Some && text::trimmed(text::opt_text(*content)->0).len() > 0),
{
    match content {
        Some(content) => !text::trim(content.as_str()).is_empty(),
        None => false,
    }
}

/// The namespace that the per-node Jobs go into, from the flag, from `$POD_NAMESPACE` and
/// from the service account's namespace file.
pub fn resolve_namespace(flag: Option<String>, pod: Option<String>, account: Option<String>) -> (r:
    String)
    ensures
        r@ == namespace_of(text::opt_text(flag), text::opt_text(pod), text::opt_text(account)),
{
    if says_something(&flag) {
        if let Some(namespace) = flag {
            return namespace;
        }
    } else if says_something(&pod) {
        if let Some(namespace) = pod {
            return namespace;
        }
    } else if let Some(namespace) = &account {
        let namespace: &str = text::trim(namespace.as_str());
        if !namespace.is_empty() {
            return namespace.to_string();
        }
    }
    "default".to_string()
}

/// The same flags for the pass that cleans the nodes this instance owns but no longer
/// selects: with a name prefix of its own, without a cleanup of its own, and reading a
/// node back in the selection as one to leave alone.
pub fn cleanup_args(args: Args) -> (r: Args)
    ensures
        r.name_prefix@ == args.name_prefix@ + "-removed"@,
        r == (Args {
            name_prefix: r.name_prefix,
            cleanup_job_template: None,
            removed_node_cleanup: true,
            ..args
        }),
{
    let mut args: Args = args;
    args.name_prefix = args.name_prefix.clone().concat("-removed");
    args.cleanup_job_template = None;
    args.removed_node_cleanup = true;
    args
}

/// How many Jobs may be in flight at once.
pub open spec fn slots_for(parallelism: int, nodes: int) -> int {
    if parallelism < 1 {
        1
    } else if parallelism > nodes {
        nodes
    } else {
        parallelism
    }
}

/// As many Jobs may be in flight as the flags say, as far as that is at least one and there
/// are nodes for them.
pub proof fn law_as_many_jobs_as_the_flags_say(parallelism: int, nodes: int)
    requires
        nodes >= 1,
    ensures
        1 <= slots_for(parallelism, nodes) <= nodes,
        1 <= parallelism <= nodes ==> slots_for(parallelism, nodes) == parallelism,
        parallelism >= 1 ==> slots_for(parallelism, nodes) <= parallelism,
        parallelism >= nodes ==> slots_for(parallelism, nodes) == nodes,
{
}

/// How many Jobs may be in flight at once: what the flags say, but at least one and no
/// more than there are nodes.
pub fn slots(parallelism: usize, nodes: usize) -> (r: usize)
    requires
        nodes >= 1,
    ensures
        r == slots_for(parallelism as int, nodes as int),
        1 <= r <= nodes,
{
    if parallelism < 1 {
        1
    } else if parallelism > nodes {
        nodes
    } else {
        parallelism
    }
}

/// An extra label is a key and a value with the first equals sign between them: the key is
/// something, without white space around it, and the value is kept as it is.
pub proof fn law_extra_labels_are_split_at_the_first_sign(
    entry: Seq<char>,
    key: Seq<char>,
    value: Seq<char>,
)
    ensures
        label_pair(entry) == Some((key, value)) <==> {
            &&& key.len() > 0
            &&& text::is_bare(key)
            &&& exists|left: Seq<char>|
                {
                    &&& entry == #[trigger] (left + seq!['='] + value)
                    &&& !left.contains('=')
                    &&& text::spells(left, key)
                }
        },
{
    text::law_splitting_once_loses_nothing(entry, '=');
    if let Some((left, right)) = text::split_at_first(entry, '=') {
        text::law_trimming_gives_bare_words(left, key);
        if label_pair(entry) == Some((key, value)) {
            assert(entry == left + seq!['='] + value);
        }
    }
    if key.len() > 0 && text::is_bare(key) && exists|left: Seq<char>|
        {
            &&& entry == #[trigger] (left + seq!['='] + value)
            &&& !left.contains('=')
            &&& text::spells(left, key)
        } {
        let left = choose|left: Seq<char>|
            {
                &&& entry == #[trigger] (left + seq!['='] + value)
                &&& !left.contains('=')
                &&& text::spells(left, key)
            };
        text::law_splitting_once_finds_the_first(left, '=', value);
        text::law_trimming_gives_bare_words(left, key);
    }
}

/// An extra label clashes with the keys that a run writes exactly where it has one of them.
pub proof fn law_a_clash_is_a_shared_key(keys: Seq<Seq<char>>, extra: Seq<(Seq<char>, Seq<char>)>)
    ensures
        first_clash(keys, extra) is Some <==> exists|i: int|
            0 <= i < extra.len() && keys.contains((#[trigger] extra[i]).0),
        first_clash(keys, extra) matches Some(key) ==> keys.contains(key),
    decreases extra.len(),
{
    if extra.len() > 0 {
        let rest = extra.drop_first();
        law_a_clash_is_a_shared_key(keys, rest);
        assert(forall|i: int| 0 <= i < rest.len() ==> #[trigger] rest[i] == extra[i + 1]);
        if first_clash(keys, extra) is Some {
            if !keys.contains(extra[0].0) {
                let i = choose|i: int| 0 <= i < rest.len() && keys.contains((#[trigger] rest[i]).0);
                assert(keys.contains(extra[i + 1].0));
            }
        } else {
            lemma_no_clash(keys, extra);
        }
    }
}

/// The Jobs go into the namespace of the flag, of the pod or of the service account, the
/// first of them that says something, and otherwise into `default`.
pub proof fn law_the_first_namespace_counts(
    flag: Option<Seq<char>>,
    pod: Option<Seq<char>>,
    account: Seq<char>,
    written: Seq<char>,
)
    requires
        text::is_bare(account),
        text::spells(written, account),
    ensures
        flag is Some && text::trimmed(flag->0).len() > 0 ==> namespace_of(flag, pod, Some(written))
            == flag->0,
        (flag is None || text::trimmed(flag->0).len() == 0) && pod is Some && text::trimmed(
            pod->0,
        ).len() > 0 ==> namespace_of(flag, pod, Some(written)) == pod->0,
        flag is None && pod is None && account.len() > 0 ==> namespace_of(flag, pod, Some(written))
            == account,
        flag is None && pod is None ==> namespace_of(flag, pod, None) == "default"@,
{
    text::law_trimming_gives_bare_words(written, account);
}

/// Flags about labels hold together where a key comes with something to write under it and an
/// instance with a prefix to stand below.
pub proof fn law_label_flags_need_each_other(args: Args)
    requires
        labelling_holds(args),
    ensures
        args.node_label is Some || args.remove_node_label || args.claim_node_pending
            <==> label_key(args) is Some,
        args.multi_install_suffix is Some ==> args.instance_label_prefix is Some,
        args.instance_label_prefix is Some ==> label_key(args) is Some,
{
}

/// The key of the label is the flag's, without white space around it; one that is nothing but
/// white space is none.
pub proof fn law_the_label_key_is_the_flags(args: Args, key: Seq<char>)
    requires
        args.node_label_key is Some,
        text::is_bare(key),
        text::spells(args.node_label_key->0@, key),
    ensures
        label_key(args) == if key.len() > 0 {
            Some(key)
        } else {
            None
        },
{
    text::law_trimming_gives_bare_words(args.node_label_key->0@, key);
}

/// A wait of no seconds is none.
pub proof fn law_no_seconds_are_no_wait(secs: u64)
    ensures
        some_secs(secs) is Some <==> secs > 0,
        some_secs(secs) is Some ==> some_secs(secs) == Some(secs),
{
}

/// What a list flag asks for is what stands between its commas.
pub open spec fn asks(list: Option<String>, item: Seq<char>) -> bool {
    list is Some && item.len() > 0 && crate::selection::is_named(list->0@, item)
}

/// The work is what the flags say: the taints to lift and the handlers to look for are those
/// of their flags, and the label, its value and the waits are too.
pub proof fn law_the_work_is_what_the_flags_say(args: Args, ops: NodeOps, item: Seq<char>)
    requires
        is_work(args, ops),
    ensures
        text::texts(ops.remove_taints@).contains(item) <==> asks(args.remove_node_taints, item),
        text::texts(ops.require_handlers@).contains(item) <==> asks(
            args.require_node_handlers,
            item,
        ),
        ops.label_value == args.node_label,
        ops.remove_label == args.remove_node_label,
        ops.claim_pending == args.claim_node_pending,
        ops.wait_ready is Some <==> args.wait_node_ready_secs > 0,
        ops.wait_ready matches Some(secs) ==> secs == args.wait_node_ready_secs,
        ops.kubelet_timeout_warn is Some <==> args.kubelet_timeout_warn_secs > 0,
        ops.kubelet_timeout_warn matches Some(secs) ==> secs == args.kubelet_timeout_warn_secs,
        ops.labelling matches Some(labelling) ==> labelling.pending_value@
            == args.node_label_pending_value@ && (labelling.instance is Some
            <==> args.instance_label_prefix is Some),
        ops.labelling is Some <==> label_key(args) is Some,
{
    if let Some(list) = args.remove_node_taints {
        crate::selection::law_a_list_names_what_stands_between_its_commas(list@, item);
    }
    if let Some(list) = args.require_node_handlers {
        crate::selection::law_a_list_names_what_stands_between_its_commas(list@, item);
    }
}

/// An instance marks its nodes below its prefix, by its name.
pub proof fn law_instances_mark_below_their_prefix(
    args: Args,
    labelling: NodeLabelling,
    prefix: Seq<char>,
    name: Seq<char>,
)
    requires
        is_labelling(args, labelling),
        args.instance_label_prefix is Some,
        prefix == nodes::label_prefix(args.instance_label_prefix->0@),
        name == nodes::instance_name(text::opt_text(args.multi_install_suffix)),
    ensures
        labelling.instance is Some,
        labelling.instance->0.key_text() == prefix + "/"@ + name,
        labelling.instance->0.prefix_text() == prefix,
        labelling.ownership() == prefix + "/"@ + name,
{
}

/// A label that is given more than once, or that is no pair, is refused; labels with keys of
/// their own are not.
pub proof fn law_keys_are_given_once(entries: Seq<Seq<char>>, i: int, j: int)
    requires
        all_new_pairs(entries, entries.len() as int),
        0 <= i < j < entries.len(),
    ensures
        label_pair(entries[i]) is Some,
        label_pair(entries[j]) is Some,
        key_of(entries[i]) != key_of(entries[j]),
{
    assert(is_new_pair(entries, i));
    assert(is_new_pair(entries, j));
}

/// What a first check of the flags comes to.
pub open spec fn check_gives(args: Args, r: Result<(), FlagError>) -> bool {
    let two = args.owner_job_name is Some && args.owner_job_from_pod is Some;
    let none = args.owner_job_name is None && args.owner_job_from_pod is None;
    match r {
        Ok(_) => !two && !(args.yield_to_live_run && none) && !(
        args.skip_satisfied_nodes && args.node_label is None),
        Err(FlagError::TwoOwners) => two,
        Err(FlagError::YieldWithoutOwner) => args.yield_to_live_run && none,
        Err(FlagError::SkipWithoutLabel) => !two && !(args.yield_to_live_run && none)
            && args.skip_satisfied_nodes && args.node_label is None,
        Err(_) => false,
    }
}

/// The flags pass the first check exactly where at most one names the owner, a run that
/// stands aside has an owner, and one that leaves satisfied nodes alone writes a label.
pub proof fn law_flags_pass_where_they_fit(args: Args, r: Result<(), FlagError>)
    requires
        check_gives(args, r),
    ensures
        r is Ok <==> {
            &&& args.owner_job_name is None || args.owner_job_from_pod is None
            &&& args.yield_to_live_run ==> args.owner_job_name is Some
                || args.owner_job_from_pod is Some
            &&& args.skip_satisfied_nodes ==> args.node_label is Some
        },
{
}

/// Flags with extra labels that are accepted make the work that they ask for: taints are lifted
/// only where a label is written, the extra labels come with one to write or to remove, and
/// none of them has a key of the instance.
pub proof fn law_accepted_flags_hold_together(args: Args, ops: NodeOps, i: int)
    requires
        work_gives(args, Ok(ops)),
        0 <= i < ops.extra_labels@.len(),
    ensures
        is_work(args, ops),
        ops.remove_taints@.len() > 0 ==> args.node_label is Some,
        args.node_label is Some || args.remove_node_label,
        ops.labelling is Some,
        ops.extra_labels@[i].0@ != ops.labelling->0.key@,
        ops.extra_labels@[i].0@ != ops.labelling->0.ownership(),
{
    let entries = text::texts(args.extra_node_label@);
    assert(text::texts(ops.remove_taints@).len() == ops.remove_taints@.len());
    assert(labels::pairs(ops.extra_labels@).len() == ops.extra_labels@.len());
    assert(label_pairs(entries).len() == args.extra_node_label@.len());
    law_sound_flags_keep_keys_apart(args, ops);
    let keys = ops.labelling->0.key_list();
    assert(keys[0] == ops.labelling->0.key@);
    assert(keys[keys.len() - 1] == ops.labelling->0.ownership());
    assert(!keys.contains(ops.extra_labels@[i].0@));
}

/// Flags that nothing speaks against are accepted.
pub proof fn law_sound_flags_are_accepted(args: Args, r: Result<NodeOps, FlagError>)
    requires
        work_gives(args, r),
        args.node_label is Some,
        label_key(args) is Some,
        args.multi_install_suffix is None,
        args.extra_node_label@.len() == 0,
    ensures
        r is Ok,
{
    if let Err(error) = r {
        let entries = text::texts(args.extra_node_label@);
        assert(entries.len() == 0);
        assert(label_pairs(entries).len() == 0);
        assert(forall|n: int| !blames(entries, n, error));
    }
}

} // verus!
