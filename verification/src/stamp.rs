//! What a Job gets on top of its template: the labels it is tracked by, and the facts about
//! its node.

use crate::job;
use crate::job::TrackingLabels;
use crate::labels;
use crate::nodes;
use crate::nodes::NodeFacts;
use crate::text;
use vstd::prelude::*;
use vstd::string::*;

verus! {

/// The variable that tells a container which runtime its node reports.
pub const RUNTIME_VERSION_ENV: &'static str = "CONTAINER_RUNTIME_VERSION";

/// The variable that tells a container which machine its node reports to be, so that it
/// can ask the host itself whether it is the machine that was chosen.
pub const MACHINE_ID_ENV: &'static str = "NODE_MACHINE_ID";

/// The labels stamped on the Job of a node.
pub open spec fn stamps(tracking: TrackingLabels, owner_value: Seq<char>, node: Seq<char>) -> Seq<
    (Seq<char>, Seq<char>),
> {
    seq![
        (tracking.owner@, owner_value),
        (tracking.node@, job::value_text(job::dns_text(node))),
        (tracking.node_name@, job::value_text(node)),
    ]
}

/// The labels stamped on the Job of a node.
pub fn tracking_stamps(tracking: &TrackingLabels, owner_value: &str, node: &str) -> (r: Vec<
    (String, String),
>)
    ensures
        labels::pairs(r@) == stamps(*tracking, owner_value@, node@),
{
    let safe: String = job::sanitize_node(node);
    let mut stamped: Vec<(String, String)> = Vec::new();
    stamped.push((tracking.owner.clone(), owner_value.to_string()));
    stamped.push((tracking.node.clone(), job::sanitize_label_value(safe.as_str())));
    stamped.push((tracking.node_name.clone(), job::sanitize_label_value(node)));
    assert(labels::pairs(stamped@) =~= stamps(*tracking, owner_value@, node@));
    stamped
}

/// The labels of a Job, given those of its template.
pub open spec fn stamped_labels(
    template: Map<Seq<char>, Seq<char>>,
    tracking: TrackingLabels,
    owner_value: Seq<char>,
    node: Seq<char>,
) -> Map<Seq<char>, Seq<char>> {
    let all = stamps(tracking, owner_value, node);
    template.insert(all[0].0, all[0].1).insert(all[1].0, all[1].1).insert(all[2].0, all[2].1)
}

/// The keys below a prefix.
pub open spec fn has_prefix(tracking: TrackingLabels, prefix: Seq<char>) -> bool {
    &&& tracking.owner@ == nodes::key_below(nodes::label_prefix(prefix), "owner"@)
    &&& tracking.node@ == nodes::key_below(nodes::label_prefix(prefix), "node"@)
    &&& tracking.node_name@ == nodes::key_below(nodes::label_prefix(prefix), "node-name"@)
}

/// Keys with different ends differ.
proof fn lemma_ends_differ(one: TrackingLabels, other: TrackingLabels, p: Seq<char>, q: Seq<char>)
    requires
        has_prefix(one, p),
        has_prefix(other, q),
    ensures
        one.node@ != other.owner@,
        one.node_name@ != other.owner@,
        nodes::label_prefix(p) != nodes::label_prefix(q) ==> one.owner@ != other.owner@,
{
    reveal_strlit("owner");
    reveal_strlit("node");
    reveal_strlit("node-name");
    reveal_strlit("/");
    assert(one.node@.last() == 'e');
    assert(one.node_name@.last() == 'e');
    assert(other.owner@.last() == 'r');
    if one.owner@ == other.owner@ {
        let mine = one.owner@;
        let theirs = other.owner@;
        assert(mine.take(mine.len() - 6) =~= nodes::label_prefix(p));
        assert(theirs.take(theirs.len() - 6) =~= nodes::label_prefix(q));
    }
}

/// A run finds the Jobs that it created, whatever labels their template has.
pub proof fn law_a_run_finds_its_jobs(
    template: Map<Seq<char>, Seq<char>>,
    tracking: TrackingLabels,
    prefix: Seq<char>,
    owner_value: Seq<char>,
    node: Seq<char>,
)
    requires
        has_prefix(tracking, prefix),
    ensures
        labels::lookup(
            stamped_labels(template, tracking, owner_value, node),
            tracking.owner@,
        ) == Some(owner_value),
{
    lemma_ends_differ(tracking, tracking, prefix, prefix);
}

/// Dispatchers with different tracking prefixes do not mistake each other's Jobs for their
/// own: what one stamps on a Job, the other does not read.
pub proof fn law_prefixes_keep_jobs_apart(
    template: Map<Seq<char>, Seq<char>>,
    one: TrackingLabels,
    other: TrackingLabels,
    p: Seq<char>,
    q: Seq<char>,
    owner_value: Seq<char>,
    node: Seq<char>,
)
    requires
        has_prefix(one, p),
        has_prefix(other, q),
        nodes::label_prefix(p) != nodes::label_prefix(q),
    ensures
        labels::lookup(stamped_labels(template, one, owner_value, node), other.owner@)
            == labels::lookup(template, other.owner@),
{
    lemma_ends_differ(one, other, p, q);
}

/// What one fact adds to a container: nothing when the node does not report it or the
/// template sets the variable itself.
pub open spec fn one_variable(name: Seq<char>, fact: Option<Seq<char>>, set: Seq<Seq<char>>) -> Seq<
    (Seq<char>, Seq<char>),
> {
    match fact {
        Some(value) if !set.contains(name) => seq![(name, value)],
        _ => Seq::empty(),
    }
}

/// What the facts add to a container that sets some variables itself.
pub open spec fn variables(
    runtime: Option<Seq<char>>,
    machine: Option<Seq<char>>,
    set: Seq<Seq<char>>,
) -> Seq<(Seq<char>, Seq<char>)> {
    one_variable(RUNTIME_VERSION_ENV@, runtime, set) + one_variable(MACHINE_ID_ENV@, machine, set)
}

/// The variables that a container gets, given the names of those that the template sets.
pub fn fact_variables(facts: &NodeFacts, set: &[String]) -> (r: Vec<(String, String)>)
    ensures
        labels::pairs(r@) == variables(
            text::opt_text(facts.container_runtime_version),
            text::opt_text(facts.machine_id),
            text::texts(set@),
        ),
{
    let mut added: Vec<(String, String)> = Vec::new();
    if let Some(runtime) = &facts.container_runtime_version {
        if !text::contains(set, RUNTIME_VERSION_ENV) {
            added.push((RUNTIME_VERSION_ENV.to_string(), runtime.clone()));
        }
    }
    if let Some(machine) = &facts.machine_id {
        if !text::contains(set, MACHINE_ID_ENV) {
            added.push((MACHINE_ID_ENV.to_string(), machine.clone()));
        }
    }
    assert(labels::pairs(added@) =~= variables(
        text::opt_text(facts.container_runtime_version),
        text::opt_text(facts.machine_id),
        text::texts(set@),
    ));
    added
}

/// A value that the template sets is left alone, and so is a variable for a fact that the
/// node does not report.
pub proof fn law_templates_keep_their_variables(
    runtime: Option<Seq<char>>,
    machine: Option<Seq<char>>,
    set: Seq<Seq<char>>,
    at: int,
)
    requires
        0 <= at < variables(runtime, machine, set).len(),
    ensures
        !set.contains(variables(runtime, machine, set)[at].0),
        variables(runtime, machine, set)[at] == (RUNTIME_VERSION_ENV@, runtime->0) && runtime is Some
            || variables(runtime, machine, set)[at] == (MACHINE_ID_ENV@, machine->0)
            && machine is Some,
{
}

/// A stamped Job carries the node that it is for, in both forms, and every label of its
/// template that is none of the stamps.
pub proof fn law_stamped_jobs_say_which_node_they_are_for(
    template: Map<Seq<char>, Seq<char>>,
    tracking: TrackingLabels,
    prefix: Seq<char>,
    owner_value: Seq<char>,
    node: Seq<char>,
    key: Seq<char>,
)
    requires
        has_prefix(tracking, prefix),
    ensures
        ({
            let after = stamped_labels(template, tracking, owner_value, node);
            &&& labels::lookup(after, tracking.node@) == Some(job::value_text(job::dns_text(node)))
            &&& labels::lookup(after, tracking.node_name@) == Some(job::value_text(node))
            &&& job::is_label_value(node) ==> labels::lookup(after, tracking.node_name@) == Some(
                node,
            )
            &&& key != tracking.owner@ && key != tracking.node@ && key != tracking.node_name@
                ==> labels::lookup(after, key) == labels::lookup(template, key)
        }),
{
    lemma_ends_differ(tracking, tracking, prefix, prefix);
    reveal_strlit("node");
    reveal_strlit("node-name");
    assert(tracking.node@.len() != tracking.node_name@.len());
    if job::is_label_value(node) {
        job::law_legal_label_values_are_kept(node);
    }
}

/// The tracking labels stand below their prefix.
pub proof fn law_tracking_labels_stand_below_their_prefix(tracking: TrackingLabels, prefix: Seq<char>)
    requires
        has_prefix(tracking, prefix),
    ensures
        tracking.owner@ == nodes::label_prefix(prefix) + "/owner"@,
        tracking.node@ == nodes::label_prefix(prefix) + "/node"@,
        tracking.node_name@ == nodes::label_prefix(prefix) + "/node-name"@,
{
    reveal_strlit("/");
    reveal_strlit("owner");
    reveal_strlit("node");
    reveal_strlit("node-name");
    reveal_strlit("/owner");
    reveal_strlit("/node");
    reveal_strlit("/node-name");
    assert(tracking.owner@ =~= nodes::label_prefix(prefix) + "/owner"@);
    assert(tracking.node@ =~= nodes::label_prefix(prefix) + "/node"@);
    assert(tracking.node_name@ =~= nodes::label_prefix(prefix) + "/node-name"@);
}

/// A fact that the node reports reaches every container that does not set its variable
/// itself.
pub proof fn law_reported_facts_reach_the_containers(
    runtime: Option<Seq<char>>,
    machine: Option<Seq<char>>,
    set: Seq<Seq<char>>,
)
    ensures
        runtime is Some && !set.contains("CONTAINER_RUNTIME_VERSION"@) ==> variables(
            runtime,
            machine,
            set,
        ).contains(("CONTAINER_RUNTIME_VERSION"@, runtime->0)),
        machine is Some && !set.contains("NODE_MACHINE_ID"@) ==> variables(
            runtime,
            machine,
            set,
        ).contains(("NODE_MACHINE_ID"@, machine->0)),
{
    let all = variables(runtime, machine, set);
    if runtime is Some && !set.contains("CONTAINER_RUNTIME_VERSION"@) {
        assert(all[0] == ("CONTAINER_RUNTIME_VERSION"@, runtime->0));
    }
    if machine is Some && !set.contains("NODE_MACHINE_ID"@) {
        assert(all[all.len() - 1] == ("NODE_MACHINE_ID"@, machine->0));
    }
}

} // verus!
