//! Which nodes a run acts on.

use crate::args;
use crate::args::Args;
use crate::node_filter;
use crate::node_filter::{PodAdmission, SkippedNode};
use crate::objects::Node;
use crate::order;
use crate::text;
use vstd::prelude::*;
use vstd::string::*;

verus! {

/// The label selectors to list nodes with, one pass each. No selector means every node,
/// which is an absent label selector rather than an empty one: what an empty text means
/// is up to the apiserver.
pub open spec fn passes_for(selectors: Seq<Seq<char>>) -> Seq<Option<Seq<char>>> {
    if selectors.len() == 0 {
        seq![None]
    } else {
        selectors.map_values(|s: Seq<char>| Some(s))
    }
}

/// The views of a list of borrowed texts that may be missing.
pub open spec fn opt_strs(list: Seq<Option<&str>>) -> Seq<Option<Seq<char>>> {
    list.map_values(|s: Option<&str>| text::opt_str(s))
}

/// The label selectors to list nodes with, one pass each.
pub fn selector_passes(selectors: &[String]) -> (r: Vec<Option<&str>>)
    ensures
        opt_strs(r@) == passes_for(text::texts(selectors@)),
{
    let mut passes: Vec<Option<&str>> = Vec::new();
    if selectors.len() == 0 {
        passes.push(None);
        assert(opt_strs(passes@) =~= passes_for(text::texts(selectors@)));
        return passes;
    }
    let mut i: usize = 0;
    while i < selectors.len()
        invariant
            i <= selectors@.len(),
            passes@.len() == i,
            forall|j: int|
                0 <= j < i ==> text::opt_str(#[trigger] passes@[j]) == Some(selectors@[j]@),
        decreases selectors@.len() - i,
    {
        passes.push(Some(selectors[i].as_str()));
        i = i + 1;
    }
    assert(opt_strs(passes@) =~= passes_for(text::texts(selectors@)));
    passes
}

/// The selectors as an error says them.
pub open spec fn selectors_text(selectors: Seq<Seq<char>>) -> Seq<char> {
    if selectors.len() == 0 {
        "<none> (every node)"@
    } else {
        text::joined(selectors.map_values(|s: Seq<char>| "["@ + s + "]"@), ", "@)
    }
}

/// The selectors as an error says them.
pub fn describe_selectors(selectors: &[String]) -> (r: String)
    ensures
        r@ == selectors_text(text::texts(selectors@)),
{
    if selectors.len() == 0 {
        return "<none> (every node)".to_string();
    }
    let mut parts: Vec<String> = Vec::new();
    let mut i: usize = 0;
    while i < selectors.len()
        invariant
            i <= selectors@.len(),
            parts@.len() == i,
            forall|j: int|
                0 <= j < i ==> (#[trigger] parts@[j])@ == "["@ + selectors@[j]@ + "]"@,
        decreases selectors@.len() - i,
    {
        parts.push("[".to_string().concat(selectors[i].as_str()).concat("]"));
        i = i + 1;
    }
    assert(text::texts(parts@) =~= text::texts(selectors@).map_values(
        |s: Seq<char>| "["@ + s + "]"@,
    ));
    text::join(&parts, ", ")
}

/// The name of a node; empty where it has none.
pub open spec fn name_of(node: Node) -> Seq<char> {
    match node.name {
        Some(name) => name@,
        None => Seq::empty(),
    }
}

/// Whether a node has a name, and one to keep where only some are kept.
pub open spec fn is_kept(node: Node, keep: Option<Seq<Seq<char>>>) -> bool {
    node.name is Some && match keep {
        Some(keep) => keep.contains(name_of(node)),
        None => true,
    }
}

/// The nodes that are kept.
pub open spec fn kept_nodes(nodes: Seq<Node>, keep: Option<Seq<Seq<char>>>) -> Seq<Node> {
    nodes.filter(|node: Node| is_kept(node, keep))
}

/// The names of a list of nodes.
pub open spec fn names_of(nodes: Seq<Node>) -> Seq<Seq<char>> {
    nodes.map_values(|node: Node| name_of(node))
}

/// Each node that is kept once, the first of its name, sorted by name.
pub open spec fn unique_nodes(nodes: Seq<Node>, keep: Option<Seq<Seq<char>>>) -> Seq<Node> {
    let kept = kept_nodes(nodes, keep);
    order::ordered_firsts(names_of(kept)).map_values(|i: int| kept[i])
}

/// A list of names that may be missing.
pub open spec fn opt_names(keep: Option<&[String]>) -> Option<Seq<Seq<char>>> {
    match keep {
        Some(keep) => Some(text::texts(keep@)),
        None => None,
    }
}

/// Keeps the objects rather than the names, so the facts they carry can be handed
/// to the per-node Jobs.
pub fn dedup_by_name(nodes: Vec<Node>, keep: Option<&[String]>) -> (r: Vec<Node>)
    ensures
        r@ == unique_nodes(nodes@, opt_names(keep)),
{
    let ghost given = nodes@;
    let ghost wanted = opt_names(keep);
    let ghost pred = |node: Node| is_kept(node, wanted);
    let mut names: Vec<String> = Vec::new();
    let mut slots: Vec<Option<Node>> = Vec::new();
    proof {
        reveal_with_fuel(Seq::filter, 1);
        assert(given.take(0).filter(pred) =~= Seq::empty());
    }
    for node in it: nodes
        invariant
            it.seq() == given,
            wanted == opt_names(keep),
            pred == (|node: Node| is_kept(node, wanted)),
            names@.len() == slots@.len(),
            slots@.len() == given.take(it.index() as int).filter(pred).len(),
            forall|j: int|
                0 <= j < slots@.len() ==> #[trigger] slots@[j] == Some(
                    given.take(it.index() as int).filter(pred)[j],
                ),
            forall|j: int|
                0 <= j < slots@.len() ==> (#[trigger] names@[j])@ == name_of(
                    given.take(it.index() as int).filter(pred)[j],
                ),
    {
        proof {
            reveal_with_fuel(Seq::filter, 1);
            assert(given.take(it.index() + 1).drop_last() =~= given.take(it.index() as int));
            assert(given.take(it.index() + 1).last() == node);
        }
        if let Some(name) = &node.name {
            let wanted_here: bool = match keep {
                Some(keep) => text::contains(keep, name.as_str()),
                None => true,
            };
            if wanted_here {
                names.push(name.clone());
                slots.push(Some(node));
            }
        }
    }
    let ghost kept = kept_nodes(given, wanted);
    assert(given.take(given.len() as int) =~= given);
    assert(text::texts(names@) =~= names_of(kept));
    let picked: Vec<usize> = order::firsts_in_order(&names);
    let ghost places = order::positions(picked@);
    proof {
        lemma_picks_differ(names_of(kept), places);
    }
    let mut unique: Vec<Node> = Vec::new();
    let mut k: usize = 0;
    while k < picked.len()
        invariant
            k <= picked@.len(),
            places == order::positions(picked@),
            places == order::ordered_firsts(names_of(kept)),
            slots@.len() == kept.len(),
            unique@.len() == k,
            forall|j: int| 0 <= j < k ==> #[trigger] unique@[j] == kept[places[j]],
            forall|j: int| 0 <= j < places.len() ==> 0 <= #[trigger] places[j] < kept.len(),
            forall|i: int, j: int|
                0 <= i < j < places.len() ==> #[trigger] places[i] != #[trigger] places[j],
            forall|j: int|
                k <= j < places.len() ==> slots@[#[trigger] places[j]] == Some(kept[places[j]]),
        decreases picked@.len() - k,
    {
        let at: usize = picked[k];
        assert(places[k as int] == at);
        let mut taken: Option<Node> = None;
        std::mem::swap(&mut taken, &mut slots[at]);
        if let Some(node) = taken {
            unique.push(node);
        }
        k = k + 1;
    }
    assert(unique@ =~= unique_nodes(given, wanted));
    unique
}

/// Picks stand at positions of the list, each at its own.
proof fn lemma_picks_differ(keys: Seq<Seq<char>>, picked: Seq<int>)
    requires
        order::picks_firsts(keys, picked),
    ensures
        forall|j: int| 0 <= j < picked.len() ==> 0 <= #[trigger] picked[j] < keys.len(),
        forall|i: int, j: int|
            0 <= i < j < picked.len() ==> #[trigger] picked[i] != #[trigger] picked[j],
{
    assert forall|i: int, j: int| 0 <= i < j < picked.len() implies #[trigger] picked[i]
        != #[trigger] picked[j] by {
        assert(text::before(keys[picked[i]], keys[picked[j]]));
        order::law_order_is_irreflexive(keys[picked[i]]);
    }
}

/// Each text once, sorted.
pub open spec fn sorted_once(list: Seq<Seq<char>>) -> Seq<Seq<char>> {
    order::ordered_firsts(list).map_values(|i: int| list[i])
}

/// Each text once, sorted.
pub fn sort_once(list: &Vec<String>) -> (r: Vec<String>)
    ensures
        text::texts(r@) == sorted_once(text::texts(list@)),
{
    let picked: Vec<usize> = order::firsts_in_order(list);
    let ghost all = text::texts(list@);
    let ghost places = order::positions(picked@);
    let mut r: Vec<String> = Vec::new();
    let mut k: usize = 0;
    while k < picked.len()
        invariant
            k <= picked@.len(),
            all == text::texts(list@),
            places == order::positions(picked@),
            order::picks_firsts(all, places),
            r@.len() == k,
            forall|j: int| 0 <= j < k ==> (#[trigger] r@[j])@ == all[places[j]],
        decreases picked@.len() - k,
    {
        assert(places[k as int] == picked@[k as int]);
        r.push(list[picked[k]].clone());
        k = k + 1;
    }
    assert(text::texts(r@) =~= sorted_once(all));
    r
}

/// The nodes that an explicit list names, each once, sorted.
pub fn explicit_names(list: &str) -> (r: Vec<String>)
    ensures
        text::texts(r@) == sorted_once(args::items_of(list@)),
{
    let names: Vec<String> = args::comma_separated(Some(list));
    sort_once(&names)
}

/// Whether an explicit list names a node.
pub open spec fn is_named(list: Seq<char>, node: Seq<char>) -> bool {
    exists|i: int|
        0 <= i < text::split_at_each(list, ',').len() && text::trimmed(
            #[trigger] text::split_at_each(list, ',')[i],
        ) == node
}

/// Whether an explicit list names a node.
pub fn names_node(list: &str, node: &str) -> (r: bool)
    ensures
        r == is_named(list@, node@),
{
    let parts: Vec<String> = text::split(list, ',');
    let ghost all = text::split_at_each(list@, ',');
    let mut i: usize = 0;
    while i < parts.len()
        invariant
            i <= parts@.len(),
            all == text::texts(parts@),
            all == text::split_at_each(list@, ','),
            forall|j: int| 0 <= j < i ==> text::trimmed(#[trigger] all[j]) != node@,
        decreases parts@.len() - i,
    {
        assert(all[i as int] == parts@[i as int]@);
        if text::same(text::trim(parts[i].as_str()), node) {
            return true;
        }
        i = i + 1;
    }
    false
}

/// The field selector that finds one node among those that the run selects.
pub open spec fn one_node_selector(existing: Option<Seq<char>>, node: Seq<char>) -> Seq<char> {
    if existing is Some && existing->0.len() > 0 {
        existing->0 + ","@ + ("metadata.name="@ + node)
    } else {
        "metadata.name="@ + node
    }
}

/// How to ask whether one node still matches the selection.
#[derive(Debug)]
pub enum Recheck {
    /// The flags name the nodes, and this is the answer.
    Known(bool),
    /// List with this field selector, once per label selector: a node that any of the
    /// lists holds is still selected.
    Ask { field_selector: String },
}

/// How to ask whether one node still matches the selection, of the apiserver rather than
/// of the list this run started from, which may be minutes old by now.
pub fn node_still_selected(args: &Args, node: &str) -> (r: Recheck)
    ensures
        match args.nodes {
            Some(list) => r == Recheck::Known(is_named(list@, node@)),
            None => r matches Recheck::Ask { field_selector } && field_selector@
                == one_node_selector(text::opt_text(args.node_field_selector), node@),
        },
{
    match &args.nodes {
        Some(list) => Recheck::Known(names_node(list.as_str(), node)),
        None => {
            let one: String = "metadata.name=".to_string().concat(node);
            let field_selector: String = match &args.node_field_selector {
                Some(existing) => {
                    if existing.as_str().is_empty() {
                        one
                    } else {
                        existing.clone().concat(",").concat(one.as_str())
                    }
                },
                None => one,
            };
            Recheck::Ask { field_selector }
        },
    }
}

/// Where a list goes on: an empty token ends it as a missing one does.
pub fn next_page(token: Option<String>) -> (r: Option<String>)
    ensures
        r == (if token is Some && text::opt_text(token)->0.len() > 0 {
            token
        } else {
            None
        }),
{
    match token {
        Some(token) => {
            if token.as_str().is_empty() {
                None
            } else {
                Some(token)
            }
        },
        None => None,
    }
}

/// What the selectors come to.
#[derive(Debug)]
pub struct Selection {
    /// The names of the nodes that matched. What a run owns is judged against these: a
    /// taint says a pod cannot run on a node right now, not that the node stopped being
    /// ours.
    pub matched: Vec<String>,
    /// The nodes that matched and that the Jobs may run on.
    pub admitted: Vec<Node>,
    /// The nodes that matched and that the Jobs may not run on.
    pub skipped: Vec<SkippedNode>,
}

/// The names of a list of nodes that are all named.
pub fn collect_names(nodes: &[Node]) -> (r: Vec<String>)
    ensures
        text::texts(r@) == names_of(nodes@.filter(|node: Node| node.name is Some)),
{
    let mut names: Vec<String> = Vec::new();
    let ghost named = |node: Node| node.name is Some;
    let mut i: usize = 0;
    proof {
        reveal_with_fuel(Seq::filter, 1);
        assert(text::texts(names@) =~= names_of(nodes@.take(0).filter(named)));
    }
    while i < nodes.len()
        invariant
            i <= nodes@.len(),
            named == (|node: Node| node.name is Some),
            text::texts(names@) == names_of(nodes@.take(i as int).filter(named)),
        decreases nodes@.len() - i,
    {
        let ghost before = names@;
        let ghost done = nodes@.take(i as int).filter(named);
        proof {
            reveal_with_fuel(Seq::filter, 1);
            assert(nodes@.take(i + 1).drop_last() =~= nodes@.take(i as int));
            assert(nodes@.take(i + 1).last() == nodes@[i as int]);
        }
        if let Some(name) = &nodes[i].name {
            names.push(name.clone());
            assert(text::texts(names@) =~= text::texts(before).push(name@));
            assert(names_of(done.push(nodes@[i as int])) =~= names_of(done).push(name@));
        }
        i = i + 1;
    }
    assert(nodes@.take(nodes@.len() as int) =~= nodes@);
    names
}

/// The names that a run wants its Jobs on, where the nodes themselves say so: an explicit
/// list names them. Otherwise whatever the selectors match is wanted, tainted or not.
pub fn desired_names(args: &Args, nodes: &[Node]) -> (r: Option<Vec<String>>)
    ensures
        match r {
            Some(names) => args.nodes is Some && text::texts(names@) == names_of(
                nodes@.filter(|node: Node| node.name is Some),
            ),
            None => args.nodes is None,
        },
{
    if args.nodes.is_some() {
        Some(collect_names(nodes))
    } else {
        None
    }
}

/// Sorts what the lists of the selectors hold: what matched, what the Jobs may run on and
/// what was skipped. Whoever ignores taints gets everything that matched.
pub fn select_nodes(listed: Vec<Node>, ignore_node_taints: bool, admission: &PodAdmission) -> (r:
    Selection)
    ensures
        text::texts(r.matched@) == sorted_once(
            names_of(listed@.filter(|node: Node| node.name is Some)),
        ),
        r.admitted@ == unique_nodes(
            listed@,
            if ignore_node_taints {
                None
            } else {
                Some(node_filter::admitted_names(listed@, *admission))
            },
        ),
        ignore_node_taints ==> r.skipped@.len() == 0,
        !ignore_node_taints ==> {
            &&& r.skipped@.len() == node_filter::blocked_nodes(listed@, *admission).len()
            &&& forall|i: int|
                0 <= i < r.skipped@.len() ==> node_filter::is_skipped(
                    #[trigger] r.skipped@[i],
                    node_filter::blocked_nodes(listed@, *admission)[i],
                    *admission,
                )
        },
{
    let names: Vec<String> = collect_names(listed.as_slice());
    let matched: Vec<String> = sort_once(&names);
    if ignore_node_taints {
        let admitted: Vec<Node> = dedup_by_name(listed, None);
        return Selection { matched, admitted, skipped: Vec::new() };
    }
    let (admitted, skipped) = node_filter::partition_by_tolerations(listed.as_slice(), admission);
    let admitted: Vec<Node> = dedup_by_name(listed, Some(admitted.as_slice()));
    Selection { matched, admitted, skipped }
}

/// The named nodes that are not among the desired ones.
pub open spec fn removed_from(owned: Seq<Node>, desired: Seq<Seq<char>>) -> Seq<Node> {
    owned.filter(|node: Node| node.name is Some && !desired.contains(name_of(node)))
}

/// A node that the instance owns is cleaned exactly where it has a name and that name is not
/// desired any more.
pub proof fn law_exactly_the_undesired_nodes_are_cleaned(
    owned: Seq<Node>,
    desired: Seq<Seq<char>>,
    node: Node,
)
    ensures
        removed_from(owned, desired).contains(node) <==> owned.contains(node) && node.name is Some
            && !desired.contains(node.name->0@),
{
    broadcast use vstd::seq_lib::group_filter_ensures;

    let gone = |n: Node| n.name is Some && !desired.contains(name_of(n));
    let out = owned.filter(gone);
    if out.contains(node) {
        owned.lemma_filter_contains_rev(gone, node);
        let k = choose|k: int| 0 <= k < out.len() && out[k] == node;
        assert(gone(out[k]));
    }
    if owned.contains(node) && gone(node) {
        let i = choose|i: int| 0 <= i < owned.len() && owned[i] == node;
        assert(gone(owned[i]));
        assert(out.contains(owned[i]));
    }
}

/// The nodes that carry this instance's mark but are not among the desired ones: they
/// dropped out of the selection.
pub fn nodes_owned_but_not_desired(owned: Vec<Node>, desired: &[String]) -> (r: Vec<Node>)
    ensures
        r@ == removed_from(owned@, text::texts(desired@)),
{
    let ghost given = owned@;
    let ghost pred = |node: Node|
        node.name is Some && !text::texts(desired@).contains(name_of(node));
    let mut removed: Vec<Node> = Vec::new();
    proof {
        reveal_with_fuel(Seq::filter, 1);
        assert(removed@ =~= given.take(0).filter(pred));
    }
    for node in it: owned
        invariant
            it.seq() == given,
            pred == (|node: Node|
                node.name is Some && !text::texts(desired@).contains(name_of(node))),
            removed@ == given.take(it.index() as int).filter(pred),
    {
        proof {
            reveal_with_fuel(Seq::filter, 1);
            assert(given.take(it.index() + 1).drop_last() =~= given.take(it.index() as int));
            assert(given.take(it.index() + 1).last() == node);
        }
        let gone: bool = match &node.name {
            Some(name) => !text::contains(desired, name.as_str()),
            None => false,
        };
        if gone {
            removed.push(node);
        }
    }
    assert(given.take(given.len() as int) =~= given);
    removed
}

/// What is said of how long a run waited.
pub open spec fn waited_text(secs: u64) -> Seq<char> {
    if secs > 0 {
        " after waiting "@ + text::decimal(secs as nat) + "s"@
    } else {
        Seq::empty()
    }
}

/// What is said when every selected node carries a taint that the run does not tolerate.
pub open spec fn all_tainted_text(secs: u64, count: nat, name: Seq<char>, taint: crate::objects::TaintModel) -> Seq<
    char,
> {
    "all "@ + text::decimal(count) + " selected node(s) carry a taint this run does not tolerate"@
        + waited_text(secs) + ", so there is nowhere to dispatch to. First blocker: node "@ + name
        + " has taint "@ + node_filter::taint_text(taint)
        + ". If you meant to target these nodes, tolerate it in the Job template:\n"@
        + node_filter::toleration_text(taint)
}

/// What is said when no node matched the selection.
pub open spec fn none_matched_text(secs: u64, selectors: Seq<Seq<char>>) -> Seq<char> {
    "no node matched the selection"@ + waited_text(secs)
        + ", so there is nowhere to dispatch to. A node matching any one of these selectors is enough: "@
        + selectors_text(selectors)
        + ". Check that whatever applies those labels (node-feature-discovery, for one) is running, or set --wait-for-nodes-secs=0 to make an empty selection a no-op."@
}

/// Nowhere to dispatch to only fails a run that waited, since it expected nodes.
/// For a run that repeats, an untolerated taint is as likely a node on its way up.
pub fn no_eligible_nodes(args: &Args, skipped: &[SkippedNode]) -> (r: Result<Vec<Node>, String>)
    ensures
        if args.wait_for_nodes_secs == 0 {
            r matches Ok(nodes) && nodes@.len() == 0
        } else if skipped@.len() > 0 {
            r matches Err(why) && why@ == all_tainted_text(
                args.wait_for_nodes_secs,
                skipped@.len(),
                skipped@[0].name@,
                skipped@[0].taint@,
            )
        } else {
            r matches Err(why) && why@ == none_matched_text(
                args.wait_for_nodes_secs,
                text::texts(args.node_selector@),
            )
        },
{
    if args.wait_for_nodes_secs == 0 {
        return Ok(Vec::new());
    }
    let waited: String = " after waiting ".to_string().concat(
        text::number(args.wait_for_nodes_secs).as_str(),
    ).concat("s");
    if skipped.len() > 0 {
        let blocked: &SkippedNode = &skipped[0];
        return Err(
            "all ".to_string().concat(text::number(skipped.len() as u64).as_str()).concat(
                " selected node(s) carry a taint this run does not tolerate",
            ).concat(waited.as_str()).concat(
                ", so there is nowhere to dispatch to. First blocker: node ",
            ).concat(blocked.name.as_str()).concat(" has taint ").concat(
                node_filter::describe_taint(&blocked.taint).as_str(),
            ).concat(
                ". If you meant to target these nodes, tolerate it in the Job template:\n",
            ).concat(node_filter::suggested_toleration(&blocked.taint).as_str()),
        );
    }
    Err(
        "no node matched the selection".to_string().concat(waited.as_str()).concat(
            ", so there is nowhere to dispatch to. A node matching any one of these selectors is enough: ",
        ).concat(describe_selectors(args.node_selector.as_slice()).as_str()).concat(
            ". Check that whatever applies those labels (node-feature-discovery, for one) is running, or set --wait-for-nodes-secs=0 to make an empty selection a no-op.",
        ),
    )
}

/// Sorting a list once loses none of its texts and adds none, and no text stands twice.
pub proof fn law_sorted_once_keeps_every_text(list: Seq<Seq<char>>)
    ensures
        forall|t: Seq<char>| #[trigger] sorted_once(list).contains(t) <==> list.contains(t),
        forall|i: int, j: int|
            0 <= i < j < sorted_once(list).len() ==> text::before(
                #[trigger] sorted_once(list)[i],
                #[trigger] sorted_once(list)[j],
            ),
{
    order::law_every_list_has_its_firsts(list);
    let picked = order::ordered_firsts(list);
    let out = sorted_once(list);
    assert forall|t: Seq<char>| #[trigger] out.contains(t) <==> list.contains(t) by {
        if out.contains(t) {
            let i = choose|i: int| 0 <= i < out.len() && out[i] == t;
            assert(list[picked[i]] == t);
        }
        if list.contains(t) {
            let j = choose|j: int| 0 <= j < list.len() && list[j] == t;
            assert(order::has_pick(list, picked, j));
            let i = choose|i: int| 0 <= i < picked.len() && list[#[trigger] picked[i]] == list[j];
            assert(out[i] == t);
        }
    }
    assert forall|i: int, j: int| 0 <= i < j < out.len() implies text::before(
        #[trigger] out[i],
        #[trigger] out[j],
    ) by {
        assert(text::before(list[picked[i]], list[picked[j]]));
    }
}

/// A selection holds no node twice and is sorted by name, so two runs over the same fleet
/// go through it the same way.
pub proof fn law_a_selection_is_sorted_and_unique(
    nodes: Seq<Node>,
    keep: Option<Seq<Seq<char>>>,
)
    ensures
        names_of(unique_nodes(nodes, keep)) == sorted_once(names_of(kept_nodes(nodes, keep))),
        forall|i: int, j: int|
            0 <= i < j < unique_nodes(nodes, keep).len() ==> text::before(
                name_of(#[trigger] unique_nodes(nodes, keep)[i]),
                name_of(#[trigger] unique_nodes(nodes, keep)[j]),
            ),
{
    let kept = kept_nodes(nodes, keep);
    let names = names_of(kept);
    let picked = order::ordered_firsts(names);
    let out = unique_nodes(nodes, keep);
    order::law_every_list_has_its_firsts(names);
    assert(names_of(out) =~= sorted_once(names));
    assert forall|i: int, j: int| 0 <= i < j < out.len() implies text::before(
        name_of(#[trigger] out[i]),
        name_of(#[trigger] out[j]),
    ) by {
        assert(text::before(names[picked[i]], names[picked[j]]));
    }
}

/// Whether a list holds a node of this name.
pub open spec fn lists(nodes: Seq<Node>, name: Seq<char>) -> bool {
    exists|i: int|
        0 <= i < nodes.len() && (#[trigger] nodes[i]).name is Some && name_of(nodes[i]) == name
}

/// The target set is the union of what the selectors match.
pub proof fn law_selectors_are_united(one: Seq<Node>, other: Seq<Node>, name: Seq<char>)
    ensures
        names_of(unique_nodes(one + other, None)).contains(name) <==> lists(one, name) || lists(
            other,
            name,
        ),
{
    law_a_selection_holds_what_is_listed(one + other, name);
    let both = one + other;
    if lists(both, name) {
        let i = choose|i: int|
            0 <= i < both.len() && (#[trigger] both[i]).name is Some && name_of(both[i]) == name;
        if i < one.len() {
            assert(one[i] == both[i]);
        } else {
            assert(other[i - one.len()] == both[i]);
        }
    }
    if lists(one, name) {
        let i = choose|i: int|
            0 <= i < one.len() && (#[trigger] one[i]).name is Some && name_of(one[i]) == name;
        assert(both[i] == one[i]);
    }
    if lists(other, name) {
        let i = choose|i: int|
            0 <= i < other.len() && (#[trigger] other[i]).name is Some && name_of(other[i]) == name;
        assert(both[one.len() + i] == other[i]);
    }
}

/// Every named node of a list is selected, and nothing else is.
pub proof fn law_a_selection_holds_what_is_listed(nodes: Seq<Node>, name: Seq<char>)
    ensures
        names_of(unique_nodes(nodes, None)).contains(name) <==> lists(nodes, name),
{
    broadcast use vstd::seq_lib::group_filter_ensures;

    let none = None::<Seq<Seq<char>>>;
    let pred = |node: Node| is_kept(node, none);
    let kept = kept_nodes(nodes, none);
    let names = names_of(kept);
    law_a_selection_is_sorted_and_unique(nodes, none);
    law_sorted_once_keeps_every_text(names);
    assert(sorted_once(names).contains(name) <==> names.contains(name));
    if names.contains(name) {
        let i = choose|i: int| 0 <= i < names.len() && names[i] == name;
        assert(kept.contains(kept[i]));
        nodes.lemma_filter_contains_rev(pred, kept[i]);
        let j = choose|j: int| 0 <= j < nodes.len() && nodes[j] == kept[i];
        assert(pred(kept[i]));
        assert(nodes[j].name is Some && name_of(nodes[j]) == name);
    }
    if lists(nodes, name) {
        let j = choose|j: int|
            0 <= j < nodes.len() && (#[trigger] nodes[j]).name is Some && name_of(nodes[j]) == name;
        assert(pred(nodes[j]));
        assert(kept.contains(nodes[j]));
        let i = choose|i: int| 0 <= i < kept.len() && kept[i] == nodes[j];
        assert(names[i] == name);
    }
}

/// A node that is named explicitly is still selected when it is asked about again.
pub proof fn law_explicit_nodes_stay_selected(list: Seq<char>, name: Seq<char>)
    requires
        sorted_once(args::items_of(list)).contains(name),
    ensures
        is_named(list, name),
        name.len() > 0,
{
    broadcast use vstd::seq_lib::group_filter_ensures;

    let parts = text::split_at_each(list, ',');
    let trimmed = parts.map_values(|item: Seq<char>| text::trimmed(item));
    let full = |item: Seq<char>| item.len() > 0;
    let items = args::items_of(list);
    law_sorted_once_keeps_every_text(items);
    assert(items.contains(name));
    trimmed.lemma_filter_contains_rev(full, name);
    let k = choose|k: int| 0 <= k < items.len() && items[k] == name;
    assert(full(items[k]));
    let i = choose|i: int| 0 <= i < trimmed.len() && trimmed[i] == name;
    assert(text::trimmed(parts[i]) == name);
}

/// Every selector is listed by on its own, in order; without any, every node is listed.
pub proof fn law_every_selector_gets_a_pass(selectors: Seq<Seq<char>>)
    ensures
        selectors.len() == 0 ==> passes_for(selectors) == seq![None::<Seq<char>>],
        selectors.len() > 0 ==> passes_for(selectors).len() == selectors.len(),
        forall|i: int| 0 <= i < selectors.len() ==> #[trigger] passes_for(selectors)[i] == Some(
            selectors[i],
        ),
{
}

/// An explicit list names the nodes that stand between its commas, with any white space
/// around them.
pub proof fn law_a_list_names_what_stands_between_its_commas(list: Seq<char>, node: Seq<char>)
    ensures
        is_named(list, node) <==> text::is_bare(node) && exists|i: int|
            0 <= i < text::split_at_each(list, ',').len() && text::spells(
                #[trigger] text::split_at_each(list, ',')[i],
                node,
            ),
        args::items_of(list).contains(node) <==> node.len() > 0 && is_named(list, node),
{
    broadcast use vstd::seq_lib::group_filter_ensures;

    let parts = text::split_at_each(list, ',');
    assert forall|i: int| 0 <= i < parts.len() implies (text::trimmed(#[trigger] parts[i]) == node
        <==> text::is_bare(node) && text::spells(parts[i], node)) by {
        text::law_trimming_gives_bare_words(parts[i], node);
    }
    if is_named(list, node) {
        let i = choose|i: int|
            0 <= i < parts.len() && text::trimmed(#[trigger] parts[i]) == node;
        assert(text::spells(parts[i], node));
    }
    if text::is_bare(node) && exists|i: int|
        0 <= i < parts.len() && text::spells(#[trigger] parts[i], node) {
        let i = choose|i: int| 0 <= i < parts.len() && text::spells(#[trigger] parts[i], node);
        assert(text::trimmed(parts[i]) == node);
    }
    let all = parts.map_values(|item: Seq<char>| text::trimmed(item));
    let full = |item: Seq<char>| item.len() > 0;
    let items = args::items_of(list);
    if items.contains(node) {
        all.lemma_filter_contains_rev(full, node);
        let k = choose|k: int| 0 <= k < items.len() && items[k] == node;
        assert(full(items[k]));
        let i = choose|i: int| 0 <= i < all.len() && all[i] == node;
        assert(text::trimmed(parts[i]) == node);
    }
    if node.len() > 0 && is_named(list, node) {
        let i = choose|i: int|
            0 <= i < parts.len() && text::trimmed(#[trigger] parts[i]) == node;
        assert(all[i] == node);
        assert(full(all[i]));
        assert(items.contains(all[i]));
    }
}

/// Where only some names are to be kept, the nodes of those names are, and no others; each
/// that is kept is a node of the list.
pub proof fn law_only_the_kept_names_are_selected(
    nodes: Seq<Node>,
    keep: Seq<Seq<char>>,
    name: Seq<char>,
)
    ensures
        names_of(unique_nodes(nodes, Some(keep))).contains(name) <==> lists(nodes, name)
            && keep.contains(name),
        forall|i: int|
            0 <= i < unique_nodes(nodes, Some(keep)).len() ==> nodes.contains(
                #[trigger] unique_nodes(nodes, Some(keep))[i],
            ),
{
    broadcast use vstd::seq_lib::group_filter_ensures;

    let some = Some(keep);
    let pred = |node: Node| is_kept(node, some);
    let kept = kept_nodes(nodes, some);
    let names = names_of(kept);
    let out = unique_nodes(nodes, some);
    law_a_selection_is_sorted_and_unique(nodes, some);
    law_sorted_once_keeps_every_text(names);
    order::law_every_list_has_its_firsts(names);
    let picked = order::ordered_firsts(names);
    assert(sorted_once(names).contains(name) <==> names.contains(name));
    if names.contains(name) {
        let i = choose|i: int| 0 <= i < names.len() && names[i] == name;
        assert(kept.contains(kept[i]));
        nodes.lemma_filter_contains_rev(pred, kept[i]);
        let j = choose|j: int| 0 <= j < nodes.len() && nodes[j] == kept[i];
        assert(pred(kept[i]));
        assert(nodes[j].name is Some && name_of(nodes[j]) == name);
    }
    if lists(nodes, name) && keep.contains(name) {
        let j = choose|j: int|
            0 <= j < nodes.len() && (#[trigger] nodes[j]).name is Some && name_of(nodes[j]) == name;
        assert(pred(nodes[j]));
        assert(kept.contains(nodes[j]));
        let i = choose|i: int| 0 <= i < kept.len() && kept[i] == nodes[j];
        assert(names[i] == name);
    }
    assert forall|i: int| 0 <= i < out.len() implies nodes.contains(#[trigger] out[i]) by {
        assert(0 <= picked[i] < kept.len());
        assert(kept.contains(kept[picked[i]]));
        nodes.lemma_filter_contains_rev(pred, kept[picked[i]]);
    }
}

/// Asking whether one node is still selected narrows the run's own field selector to it.
pub proof fn law_one_node_is_asked_about_by_name(existing: Option<Seq<char>>, node: Seq<char>)
    ensures
        existing is None ==> one_node_selector(existing, node) == "metadata.name="@ + node,
        existing is Some && existing->0.len() > 0 ==> one_node_selector(existing, node)
            == existing->0 + ",metadata.name="@ + node,
{
    reveal_strlit(",");
    reveal_strlit("metadata.name=");
    reveal_strlit(",metadata.name=");
    if existing is Some && existing->0.len() > 0 {
        assert(one_node_selector(existing, node) =~= existing->0 + ",metadata.name="@ + node);
    }
}

/// Of several nodes of one name, the first is selected.
pub proof fn law_the_first_of_a_name_is_selected(
    nodes: Seq<Node>,
    keep: Option<Seq<Seq<char>>>,
    at: int,
)
    requires
        0 <= at < unique_nodes(nodes, keep).len(),
    ensures
        exists|k: int|
            {
                &&& 0 <= k < kept_nodes(nodes, keep).len()
                &&& #[trigger] kept_nodes(nodes, keep)[k] == unique_nodes(nodes, keep)[at]
                &&& forall|j: int|
                    0 <= j < k ==> name_of(#[trigger] kept_nodes(nodes, keep)[j]) != name_of(
                        unique_nodes(nodes, keep)[at],
                    )
            },
{
    let kept = kept_nodes(nodes, keep);
    let names = names_of(kept);
    order::law_every_list_has_its_firsts(names);
    let picked = order::ordered_firsts(names);
    let k = picked[at];
    assert(kept[k] == unique_nodes(nodes, keep)[at]);
    assert forall|j: int| 0 <= j < k implies name_of(#[trigger] kept[j]) != name_of(kept[k]) by {
        assert(names[j] != names[picked[at]]);
    }
}

} // verus!
