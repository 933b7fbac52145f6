//! The writes a run makes on a node, each as a guarded JSON Patch.
//!
//! Every patch starts by testing the UID and the resource version that the decision
//! was read from, so a write that would act on a node that has moved on is refused
//! instead of raced.

use crate::json;
use crate::json::JsonModel;
use crate::labels;
use crate::labels::StringMap;
use crate::nodes;
use crate::nodes::{NodeLabelling, ResultKeys, SharedLabel};
use crate::objects;
use crate::objects::Taint;
use crate::text;
use vstd::prelude::*;
use vstd::string::*;

verus! {

/// The two tests that every patch starts with.
pub open spec fn guards(uid: Seq<char>, version: Seq<char>) -> Seq<JsonModel> {
    seq![
        json::test_op("/metadata/uid"@, JsonModel::Text(uid)),
        json::test_op("/metadata/resourceVersion"@, JsonModel::Text(version)),
    ]
}

/// Where a key of a string map stands in a node.
pub open spec fn path_of(parent: Seq<char>, key: Seq<char>) -> Seq<char> {
    parent + "/"@ + json::escaped(key)
}

/// A write to one of a node's string maps as a patch operation.
pub open spec fn write_op(
    parent: Seq<char>,
    write: (Seq<char>, Option<Seq<char>>),
) -> JsonModel {
    match write.1 {
        Some(value) => json::add_op(path_of(parent, write.0), JsonModel::Text(value)),
        None => json::remove_op(path_of(parent, write.0)),
    }
}

/// The patch that makes a list of writes to the labels of a node.
pub open spec fn label_patch_model(
    uid: Seq<char>,
    version: Seq<char>,
    writes: Seq<(Seq<char>, Option<Seq<char>>)>,
) -> Seq<JsonModel> {
    guards(uid, version) + writes.map_values(
        |w: (Seq<char>, Option<Seq<char>>)| write_op("/metadata/labels"@, w),
    )
}

/// Builds the two tests that every patch starts with.
fn guard_ops(expected_uid: &str, version: &str) -> (r: Vec<serde_json::Value>)
    ensures
        json::json_models(r@) == guards(expected_uid@, version@),
{
    let mut ops: Vec<serde_json::Value> = Vec::new();
    ops.push(json::test_operation("/metadata/uid", json::json_text(expected_uid)));
    ops.push(json::test_operation("/metadata/resourceVersion", json::json_text(version)));
    assert(json::json_models(ops@) =~= guards(expected_uid@, version@));
    ops
}

/// Builds the path of a key.
fn key_path(parent: &str, key: &str) -> (r: String)
    ensures
        r@ == path_of(parent@, key@),
{
    let token: String = json::escape_pointer(key);
    parent.to_string().concat("/").concat(token.as_str())
}

/// Builds a write to one of a node's string maps.
fn write_operation(parent: &str, key: &str, value: &Option<String>) -> (r: serde_json::Value)
    ensures
        json::json_model(r) == write_op(parent@, (key@, text::opt_text(*value))),
{
    let path: String = key_path(parent, key);
    match value {
        Some(value) => json::add_operation(path.as_str(), json::json_text(value.as_str())),
        None => json::remove_operation(path.as_str()),
    }
}

/// Builds the patch that makes a list of writes to the labels of a node.
///
/// `remove` fails when the key is already gone, which is another way of saying that
/// a stale node was read.
pub fn label_patch_ops(
    expected_uid: &str,
    version: &str,
    updates: &[(String, Option<String>)],
) -> (r: Vec<serde_json::Value>)
    ensures
        json::json_models(r@) == label_patch_model(
            expected_uid@,
            version@,
            labels::writes(updates@),
        ),
{
    let mut ops: Vec<serde_json::Value> = guard_ops(expected_uid, version);
    let ghost head = guards(expected_uid@, version@);
    let ghost all = labels::writes(updates@);
    let ghost f = |w: (Seq<char>, Option<Seq<char>>)| write_op("/metadata/labels"@, w);
    let mut i: usize = 0;
    assert(json::json_models(ops@) =~= head + all.take(0).map_values(f));
    while i < updates.len()
        invariant
            i <= updates@.len(),
            all == labels::writes(updates@),
            f == (|w: (Seq<char>, Option<Seq<char>>)| write_op("/metadata/labels"@, w)),
            json::json_models(ops@) == head + all.take(i as int).map_values(f),
        decreases updates@.len() - i,
    {
        let ghost before = ops@;
        ops.push(write_operation("/metadata/labels", updates[i].0.as_str(), &updates[i].1));
        assert(json::json_models(ops@) =~= json::json_models(before).push(f(all[i as int])));
        assert(head + all.take(i + 1).map_values(f) =~= (head + all.take(i as int).map_values(
            f,
        )).push(f(all[i as int])));
        i = i + 1;
    }
    assert(all.take(all.len() as int) =~= all);
    ops
}

/// The two tests are operations.
proof fn lemma_guards_are_operations(uid: Seq<char>, version: Seq<char>)
    ensures
        forall|i: int|
            0 <= i < 2 ==> json::is_operation(#[trigger] guards(uid, version)[i]),
{
    reveal_strlit("/metadata/uid");
    reveal_strlit("/metadata/resourceVersion");
    assert(json::is_pointer("/metadata/uid"@));
    assert(json::is_pointer("/metadata/resourceVersion"@));
    let a = json::value_op("add"@, "/metadata/uid"@, JsonModel::Text(uid));
    let b = json::value_op("add"@, "/metadata/resourceVersion"@, JsonModel::Text(version));
    assert(json::is_operation(guards(uid, version)[0]));
    assert(json::is_operation(guards(uid, version)[1]));
}

/// A write to a string map is an operation, whatever the key.
proof fn lemma_write_is_operation(parent: Seq<char>, write: (Seq<char>, Option<Seq<char>>))
    requires
        json::is_pointer(parent),
    ensures
        json::is_operation(write_op(parent, write)),
{
    json::law_every_key_has_a_path(parent, write.0);
    let path = path_of(parent, write.0);
    let value = match write.1 {
        Some(value) => JsonModel::Text(value),
        None => JsonModel::Other,
    };
    let a = json::value_op("add"@, path, value);
    assert(json::is_pointer(path));
}

/// The map that carries the labels and the one that carries the annotations are
/// JSON Pointers.
proof fn lemma_parents_are_pointers()
    ensures
        json::is_pointer("/metadata/labels"@),
        json::is_pointer("/metadata/annotations"@),
        json::is_pointer("/spec/taints"@),
{
    reveal_strlit("/metadata/labels");
    reveal_strlit("/metadata/annotations");
    reveal_strlit("/spec/taints");
}

/// Every operation of a label patch is one that a JSON Patch can hold.
pub proof fn law_label_patches_are_well_formed(
    uid: Seq<char>,
    version: Seq<char>,
    writes: Seq<(Seq<char>, Option<Seq<char>>)>,
)
    ensures
        forall|i: int|
            0 <= i < label_patch_model(uid, version, writes).len() ==> json::is_operation(
                #[trigger] label_patch_model(uid, version, writes)[i],
            ),
{
    lemma_guards_are_operations(uid, version);
    lemma_parents_are_pointers();
    let ops = label_patch_model(uid, version, writes);
    assert forall|i: int| 0 <= i < ops.len() implies json::is_operation(#[trigger] ops[i]) by {
        if i < 2 {
            assert(ops[i] == guards(uid, version)[i]);
        } else {
            lemma_write_is_operation("/metadata/labels"@, writes[i - 2]);
            assert(ops[i] == write_op("/metadata/labels"@, writes[i - 2]));
        }
    }
}

/// The guarded patch that makes a list of writes to the labels of a node.
pub fn label_patch(
    expected_uid: &str,
    version: &str,
    updates: &[(String, Option<String>)],
) -> (r: Result<json_patch::Patch, serde_json::Error>)
    ensures
        r matches Ok(patch) && json::patch_model(patch) == label_patch_model(
            expected_uid@,
            version@,
            labels::writes(updates@),
        ),
{
    let ops: Vec<serde_json::Value> = label_patch_ops(expected_uid, version, updates);
    proof {
        law_label_patches_are_well_formed(expected_uid@, version@, labels::writes(updates@));
    }
    json::patch_from(ops)
}

/// The writes that take a node out of service before it is taken apart: this
/// instance's mark, and the shared key unless another instance is serving, go down
/// to the pending value.
pub open spec fn demotions(
    on_node: Map<Seq<char>, Seq<char>>,
    labelling: NodeLabelling,
) -> Seq<(Seq<char>, Option<Seq<char>>)> {
    let pending = labelling.pending_value@;
    let own = match labelling.instance {
        Some(marker) => if on_node.contains_key(marker.key_text()) {
            seq![(marker.key_text(), Some(pending))]
        } else {
            Seq::empty()
        },
        None => Seq::empty(),
    };
    let shared = if on_node.contains_key(labelling.key@) && on_node[labelling.key@] != pending
        && nodes::shared_after(on_node, labelling) != SharedLabel::Keep {
        seq![(labelling.key@, Some(pending))]
    } else {
        Seq::empty()
    };
    own + shared
}

/// Demoted rather than removed, so that nothing new is selected onto the node
/// while it is taken apart but a cleanup Job that fails can still be found by
/// the next one. A node that never had the label is left alone.
pub fn demote_updates(on_node: &StringMap, labelling: &NodeLabelling) -> (r: Vec<
    (String, Option<String>),
>)
    ensures
        labels::writes(r@) == demotions(on_node@, *labelling),
{
    let mut updates: Vec<(String, Option<String>)> = Vec::new();
    let pending: &str = labelling.pending_value.as_str();
    if let Some(marker) = &labelling.instance {
        if on_node.contains_key(marker.key()) {
            updates.push((marker.key().to_string(), Some(pending.to_string())));
        }
    }
    if let Some(current) = on_node.get(labelling.key.as_str()) {
        if !text::same(current, pending) {
            match nodes::shared_label_after(on_node, labelling) {
                SharedLabel::Keep => {},
                _ => {
                    updates.push((labelling.key.clone(), Some(pending.to_string())));
                },
            }
        }
    }
    assert(labels::writes(updates@) =~= demotions(on_node@, *labelling));
    updates
}

/// The extra labels that a node carries, each to be taken away.
pub open spec fn extra_removals(
    on_node: Map<Seq<char>, Seq<char>>,
    extra: Seq<(Seq<char>, Seq<char>)>,
) -> Seq<(Seq<char>, Option<Seq<char>>)>
    decreases extra.len(),
{
    if extra.len() == 0 {
        Seq::empty()
    } else if on_node.contains_key(extra.last().0) {
        extra_removals(on_node, extra.drop_last()).push((extra.last().0, None))
    } else {
        extra_removals(on_node, extra.drop_last())
    }
}

/// The write to the shared key once this instance lets go of a node.
pub open spec fn shared_release(
    on_node: Map<Seq<char>, Seq<char>>,
    labelling: NodeLabelling,
) -> Seq<(Seq<char>, Option<Seq<char>>)> {
    let pending = labelling.pending_value@;
    match nodes::shared_after(on_node, labelling) {
        SharedLabel::Keep => Seq::empty(),
        SharedLabel::Demote => if labels::lookup(on_node, labelling.key@) != Some(pending) {
            seq![(labelling.key@, Some(pending))]
        } else {
            Seq::empty()
        },
        SharedLabel::Remove => if on_node.contains_key(labelling.key@) {
            seq![(labelling.key@, None)]
        } else {
            Seq::empty()
        },
    }
}

/// The writes that let go of a node: this instance's mark goes, the shared key goes
/// with the last mark, and the extra labels go in any case.
pub open spec fn releases(
    on_node: Map<Seq<char>, Seq<char>>,
    labelling: NodeLabelling,
    extra: Seq<(Seq<char>, Seq<char>)>,
) -> Seq<(Seq<char>, Option<Seq<char>>)> {
    let own = match labelling.instance {
        Some(marker) => if on_node.contains_key(marker.key_text()) {
            seq![(marker.key_text(), None)]
        } else {
            Seq::empty()
        },
        None => Seq::empty(),
    };
    own + shared_release(on_node, labelling) + extra_removals(on_node, extra)
}

/// The writes that let go of a node once its cleanup Job succeeded.
pub fn release_updates(
    on_node: &StringMap,
    labelling: &NodeLabelling,
    extra: &[(String, String)],
) -> (r: Vec<(String, Option<String>)>)
    ensures
        labels::writes(r@) == releases(on_node@, *labelling, labels::pairs(extra@)),
{
    let mut updates: Vec<(String, Option<String>)> = Vec::new();
    let pending: &str = labelling.pending_value.as_str();
    let key: &str = labelling.key.as_str();
    if let Some(marker) = &labelling.instance {
        if on_node.contains_key(marker.key()) {
            updates.push((marker.key().to_string(), None));
        }
    }
    let ghost own = labels::writes(updates@);
    match nodes::shared_label_after(on_node, labelling) {
        SharedLabel::Keep => {},
        SharedLabel::Demote => {
            let is_pending: bool = match on_node.get(key) {
                Some(current) => text::same(current, pending),
                None => false,
            };
            if !is_pending {
                updates.push((key.to_string(), Some(pending.to_string())));
            }
        },
        SharedLabel::Remove => {
            if on_node.contains_key(key) {
                updates.push((key.to_string(), None));
            }
        },
    }
    let ghost head = own + shared_release(on_node@, *labelling);
    assert(labels::writes(updates@) =~= head);
    let ghost all = labels::pairs(extra@);
    let mut i: usize = 0;
    assert(head + extra_removals(on_node@, all.take(0)) =~= head);
    while i < extra.len()
        invariant
            i <= extra@.len(),
            all == labels::pairs(extra@),
            labels::writes(updates@) == head + extra_removals(on_node@, all.take(i as int)),
        decreases extra@.len() - i,
    {
        let ghost before = updates@;
        proof {
            assert(all.take(i + 1).drop_last() =~= all.take(i as int));
            assert(all.take(i + 1).last().0 == extra@[i as int].0@);
        }
        if on_node.contains_key(extra[i].0.as_str()) {
            updates.push((extra[i].0.clone(), None));
            assert(labels::writes(updates@) =~= labels::writes(before).push(
                (extra@[i as int].0@, None),
            ));
            assert(head + extra_removals(on_node@, all.take(i + 1)) =~= (head + extra_removals(
                on_node@,
                all.take(i as int),
            )).push((extra@[i as int].0@, None)));
        }
        i = i + 1;
    }
    proof {
        assert(all.take(all.len() as int) =~= all);
        assert(own =~= match labelling.instance {
            Some(marker) => if on_node@.contains_key(marker.key_text()) {
                seq![(marker.key_text(), None::<Seq<char>>)]
            } else {
                Seq::empty()
            },
            None => Seq::empty(),
        });
    }
    updates
}

/// The writes that advertise a node as finished: every key of this instance at the
/// finished value, and every extra label at its own.
pub open spec fn finished_labels(
    labelling: NodeLabelling,
    value: Seq<char>,
    extra: Seq<(Seq<char>, Seq<char>)>,
) -> Seq<(Seq<char>, Option<Seq<char>>)> {
    labelling.key_list().map_values(|key: Seq<char>| (key, Some(value))) + extra.map_values(
        |pair: (Seq<char>, Seq<char>)| (pair.0, Some(pair.1)),
    )
}

/// The writes that advertise a node as finished.
pub fn finished_updates(labelling: &NodeLabelling, value: &str, extra: &[(String, String)]) -> (r:
    Vec<(String, Option<String>)>)
    ensures
        labels::writes(r@) == finished_labels(*labelling, value@, labels::pairs(extra@)),
{
    let mut updates: Vec<(String, Option<String>)> = Vec::new();
    updates.push((labelling.key.clone(), Some(value.to_string())));
    if let Some(marker) = &labelling.instance {
        updates.push((marker.key().to_string(), Some(value.to_string())));
    }
    let ghost head = labelling.key_list().map_values(|key: Seq<char>| (key, Some(value@)));
    assert(labels::writes(updates@) =~= head);
    let ghost all = labels::pairs(extra@);
    let ghost f = |pair: (Seq<char>, Seq<char>)| (pair.0, Some(pair.1));
    let mut i: usize = 0;
    assert(head + all.take(0).map_values(f) =~= head);
    while i < extra.len()
        invariant
            i <= extra@.len(),
            all == labels::pairs(extra@),
            f == (|pair: (Seq<char>, Seq<char>)| (pair.0, Some(pair.1))),
            labels::writes(updates@) == head + all.take(i as int).map_values(f),
        decreases extra@.len() - i,
    {
        let ghost before = updates@;
        updates.push((extra[i].0.clone(), Some(extra[i].1.clone())));
        assert(labels::writes(updates@) =~= labels::writes(before).push(f(all[i as int])));
        assert(head + all.take(i + 1).map_values(f) =~= (head + all.take(i as int).map_values(
            f,
        )).push(f(all[i as int])));
        i = i + 1;
    }
    assert(all.take(all.len() as int) =~= all);
    updates
}

/// The keys of this instance that a node does not carry yet.
pub open spec fn missing_keys(
    on_node: Map<Seq<char>, Seq<char>>,
    labelling: NodeLabelling,
) -> Seq<Seq<char>> {
    labelling.key_list().filter(|key: Seq<char>| !on_node.contains_key(key))
}

/// The object that holds every key of a list at one value.
pub open spec fn each_at(keys: Seq<Seq<char>>, value: Seq<char>) -> Map<Seq<char>, JsonModel>
    decreases keys.len(),
{
    if keys.len() == 0 {
        Map::empty()
    } else {
        each_at(keys.drop_last(), value).insert(keys.last(), JsonModel::Text(value))
    }
}

/// The patch that claims a node.
pub open spec fn claim_model(
    uid: Seq<char>,
    version: Seq<char>,
    on_node: Map<Seq<char>, Seq<char>>,
    labelling: NodeLabelling,
) -> Seq<JsonModel> {
    let missing = missing_keys(on_node, labelling);
    let pending = labelling.pending_value@;
    guards(uid, version) + (if on_node == Map::<Seq<char>, Seq<char>>::empty() {
        seq![json::add_op("/metadata/labels"@, JsonModel::Object(each_at(missing, pending)))]
    } else {
        missing.map_values(|key: Seq<char>| write_op("/metadata/labels"@, (key, Some(pending))))
    })
}

/// The keys of this instance that a node does not carry yet.
fn keys_to_claim(on_node: &StringMap, labelling: &NodeLabelling) -> (r: Vec<String>)
    ensures
        text::texts(r@) == missing_keys(on_node@, *labelling),
{
    let keys: Vec<String> = labelling.keys();
    let mut missing: Vec<String> = Vec::new();
    let ghost all = labelling.key_list();
    let ghost absent = |key: Seq<char>| !on_node@.contains_key(key);
    let mut i: usize = 0;
    proof {
        reveal_with_fuel(Seq::filter, 1);
        assert(text::texts(missing@) =~= all.take(0).filter(absent));
    }
    while i < keys.len()
        invariant
            i <= keys@.len(),
            all == text::texts(keys@),
            absent == (|key: Seq<char>| !on_node@.contains_key(key)),
            text::texts(missing@) == all.take(i as int).filter(absent),
        decreases keys@.len() - i,
    {
        let ghost before = missing@;
        proof {
            reveal_with_fuel(Seq::filter, 1);
            assert(all.take(i + 1).drop_last() =~= all.take(i as int));
            assert(all.take(i + 1).last() == keys@[i as int]@);
        }
        if !on_node.contains_key(keys[i].as_str()) {
            missing.push(keys[i].clone());
            assert(text::texts(missing@) =~= text::texts(before).push(keys@[i as int]@));
        }
        i = i + 1;
    }
    assert(all.take(all.len() as int) =~= all);
    missing
}

/// The patch that claims a node, or `None` when every key is there already.
///
/// Any value means someone has been here: a finished value must not be downgraded
/// mid-upgrade, and a pending one is already the claim. `add` needs its parent to
/// exist, so a node without labels is given the map in one piece.
pub fn claim_ops(
    expected_uid: &str,
    version: &str,
    on_node: &StringMap,
    labelling: &NodeLabelling,
) -> (r: Option<Vec<serde_json::Value>>)
    ensures
        match r {
            Some(ops) => missing_keys(on_node@, *labelling).len() > 0 && json::json_models(ops@)
                == claim_model(expected_uid@, version@, on_node@, *labelling),
            None => missing_keys(on_node@, *labelling).len() == 0,
        },
{
    let missing: Vec<String> = keys_to_claim(on_node, labelling);
    let pending: &str = labelling.pending_value.as_str();
    if missing.len() == 0 {
        return None;
    }
    let mut ops: Vec<serde_json::Value> = guard_ops(expected_uid, version);
    let ghost head = guards(expected_uid@, version@);
    let ghost all = text::texts(missing@);
    let mut i: usize = 0;
    if on_node.is_empty() {
        let mut fields: Vec<(String, serde_json::Value)> = Vec::new();
        while i < missing.len()
            invariant
                i <= missing@.len(),
                all == text::texts(missing@),
                json::fields_model(fields@) == each_at(all.take(i as int), pending@),
            decreases missing@.len() - i,
        {
            let ghost before = fields@;
            fields.push((missing[i].clone(), json::json_text(pending)));
            assert(fields@.drop_last() =~= before);
            assert(all.take(i + 1).drop_last() =~= all.take(i as int));
            i = i + 1;
        }
        assert(all.take(all.len() as int) =~= all);
        let ghost before = ops@;
        ops.push(json::add_operation("/metadata/labels", json::json_object(fields)));
        assert(json::json_models(ops@) =~= claim_model(
            expected_uid@,
            version@,
            on_node@,
            *labelling,
        ));
    } else {
        let ghost f = |key: Seq<char>| write_op("/metadata/labels"@, (key, Some(pending@)));
        assert(head + all.take(0).map_values(f) =~= head);
        while i < missing.len()
            invariant
                i <= missing@.len(),
                all == text::texts(missing@),
                f == (|key: Seq<char>| write_op("/metadata/labels"@, (key, Some(pending@)))),
                json::json_models(ops@) == head + all.take(i as int).map_values(f),
            decreases missing@.len() - i,
        {
            let ghost before = ops@;
            let value: Option<String> = Some(pending.to_string());
            ops.push(write_operation("/metadata/labels", missing[i].as_str(), &value));
            assert(json::json_models(ops@) =~= json::json_models(before).push(f(all[i as int])));
            assert(head + all.take(i + 1).map_values(f) =~= (head + all.take(i as int).map_values(
                f,
            )).push(f(all[i as int])));
            i = i + 1;
        }
        assert(all.take(all.len() as int) =~= all);
    }
    Some(ops)
}

/// The string map of a node that a key of the run's result stands in: the state is a
/// label, everything else an annotation.
pub open spec fn result_parent(keys: ResultKeys, key: Seq<char>) -> Seq<char> {
    if key == keys.state@ {
        "/metadata/labels"@
    } else {
        "/metadata/annotations"@
    }
}

/// What a node already says under a key of the run's result.
pub open spec fn result_present(
    keys: ResultKeys,
    on_node: Map<Seq<char>, Seq<char>>,
    notes: Map<Seq<char>, Seq<char>>,
    key: Seq<char>,
) -> Option<Seq<char>> {
    if key == keys.state@ {
        labels::lookup(on_node, key)
    } else {
        labels::lookup(notes, key)
    }
}

/// The writes of a result that say something the node does not say already.
pub open spec fn result_changes(
    keys: ResultKeys,
    on_node: Map<Seq<char>, Seq<char>>,
    notes: Map<Seq<char>, Seq<char>>,
    writes: Seq<(Seq<char>, Option<Seq<char>>)>,
) -> Seq<(Seq<char>, Option<Seq<char>>)> {
    writes.filter(
        |w: (Seq<char>, Option<Seq<char>>)| w.1 != result_present(keys, on_node, notes, w.0),
    )
}

/// The operations that give a node the maps it lacks: `add` needs its parent to
/// exist, and a node may carry neither.
pub open spec fn result_parents(
    on_node: Map<Seq<char>, Seq<char>>,
    notes: Map<Seq<char>, Seq<char>>,
) -> Seq<JsonModel> {
    let none = Map::<Seq<char>, Seq<char>>::empty();
    let empty = JsonModel::Object(Map::empty());
    (if on_node == none {
        seq![json::add_op("/metadata/labels"@, empty)]
    } else {
        Seq::empty()
    }) + (if notes == none {
        seq![json::add_op("/metadata/annotations"@, empty)]
    } else {
        Seq::empty()
    })
}

/// The patch that records a result.
pub open spec fn result_model(
    uid: Seq<char>,
    version: Seq<char>,
    keys: ResultKeys,
    on_node: Map<Seq<char>, Seq<char>>,
    notes: Map<Seq<char>, Seq<char>>,
    writes: Seq<(Seq<char>, Option<Seq<char>>)>,
) -> Seq<JsonModel> {
    guards(uid, version) + result_parents(on_node, notes) + result_changes(
        keys,
        on_node,
        notes,
        writes,
    ).map_values(|w: (Seq<char>, Option<Seq<char>>)| write_op(result_parent(keys, w.0), w))
}

/// The operation that gives a node an empty string map.
fn empty_map_operation(path: &str) -> (r: serde_json::Value)
    ensures
        json::json_model(r) == json::add_op(path@, JsonModel::Object(Map::empty())),
{
    let fields: Vec<(String, serde_json::Value)> = Vec::new();
    json::add_operation(path, json::json_object(fields))
}

/// The guarded patch recording a node's result, or `None` when the node already
/// says exactly this.
pub fn result_patch_ops(
    expected_uid: &str,
    version: &str,
    keys: &ResultKeys,
    on_node: &StringMap,
    notes: &StringMap,
    updates: &[(String, Option<String>)],
) -> (r: Option<Vec<serde_json::Value>>)
    ensures
        match r {
            Some(ops) => {
                &&& result_changes(*keys, on_node@, notes@, labels::writes(updates@)).len() > 0
                &&& json::json_models(ops@) == result_model(
                    expected_uid@,
                    version@,
                    *keys,
                    on_node@,
                    notes@,
                    labels::writes(updates@),
                )
            },
            None => result_changes(*keys, on_node@, notes@, labels::writes(updates@)).len() == 0,
        },
{
    let mut ops: Vec<serde_json::Value> = guard_ops(expected_uid, version);
    if on_node.is_empty() {
        ops.push(empty_map_operation("/metadata/labels"));
    }
    if notes.is_empty() {
        ops.push(empty_map_operation("/metadata/annotations"));
    }
    let ghost head = guards(expected_uid@, version@) + result_parents(on_node@, notes@);
    assert(json::json_models(ops@) =~= head);
    let ghost all = labels::writes(updates@);
    let ghost differs = |w: (Seq<char>, Option<Seq<char>>)|
        w.1 != result_present(*keys, on_node@, notes@, w.0);
    let ghost f = |w: (Seq<char>, Option<Seq<char>>)| write_op(result_parent(*keys, w.0), w);
    let mut changes: usize = 0;
    let mut i: usize = 0;
    proof {
        reveal_with_fuel(Seq::filter, 1);
        assert(head + all.take(0).filter(differs).map_values(f) =~= head);
    }
    while i < updates.len()
        invariant
            i <= updates@.len(),
            all == labels::writes(updates@),
            differs == (|w: (Seq<char>, Option<Seq<char>>)|
                w.1 != result_present(*keys, on_node@, notes@, w.0)),
            f == (|w: (Seq<char>, Option<Seq<char>>)| write_op(result_parent(*keys, w.0), w)),
            json::json_models(ops@) == head + all.take(i as int).filter(differs).map_values(f),
            changes == all.take(i as int).filter(differs).len(),
            changes <= i,
        decreases updates@.len() - i,
    {
        let ghost before = ops@;
        let ghost w = all[i as int];
        proof {
            reveal_with_fuel(Seq::filter, 1);
            assert(all.take(i + 1).drop_last() =~= all.take(i as int));
            assert(all.take(i + 1).last() == w);
        }
        let key: &str = updates[i].0.as_str();
        let in_labels: bool = text::same(key, keys.state.as_str());
        let parent: &str = if in_labels {
            "/metadata/labels"
        } else {
            "/metadata/annotations"
        };
        let present: Option<&str> = if in_labels {
            on_node.get(key)
        } else {
            notes.get(key)
        };
        let said: bool = match (&updates[i].1, present) {
            (Some(value), Some(now)) => text::same(value.as_str(), now),
            (None, None) => true,
            _ => false,
        };
        assert(said == !differs(w));
        if !said {
            ops.push(write_operation(parent, key, &updates[i].1));
            changes = changes + 1;
            proof {
                let done = all.take(i as int).filter(differs);
                assert(json::json_models(ops@) =~= json::json_models(before).push(f(w)));
                assert(all.take(i + 1).filter(differs) == done.push(w));
                assert(head + done.push(w).map_values(f) =~= (head + done.map_values(f)).push(
                    f(w),
                ));
            }
        }
        i = i + 1;
    }
    assert(all.take(all.len() as int) =~= all);
    if changes > 0 {
        Some(ops)
    } else {
        None
    }
}

/// Longer than a label value or a timestamp, so what it elides is a failure
/// reason the log already carries above.
pub const LOGGED_VALUE_LIMIT: usize = 40;

/// One write as a log line says it.
pub open spec fn described(write: (Seq<char>, Option<Seq<char>>)) -> Seq<char> {
    match write.1 {
        Some(value) => if value.len() <= LOGGED_VALUE_LIMIT {
            write.0 + "="@ + value
        } else {
            write.0 + " (written)"@
        },
        None => write.0 + " (removed)"@,
    }
}

/// A list of writes as a log line says it.
pub fn describe_updates(updates: &[(String, Option<String>)]) -> (r: String)
    ensures
        r@ == text::joined(
            labels::writes(updates@).map_values(
                |w: (Seq<char>, Option<Seq<char>>)| described(w),
            ),
            ", "@,
        ),
{
    let mut parts: Vec<String> = Vec::new();
    let ghost all = labels::writes(updates@);
    let ghost f = |w: (Seq<char>, Option<Seq<char>>)| described(w);
    let mut i: usize = 0;
    assert(text::texts(parts@) =~= all.take(0).map_values(f));
    while i < updates.len()
        invariant
            i <= updates@.len(),
            all == labels::writes(updates@),
            f == (|w: (Seq<char>, Option<Seq<char>>)| described(w)),
            text::texts(parts@) == all.take(i as int).map_values(f),
        decreases updates@.len() - i,
    {
        let ghost before = parts@;
        let key: String = updates[i].0.clone();
        let part: String = match &updates[i].1 {
            Some(value) => {
                if value.as_str().unicode_len() <= LOGGED_VALUE_LIMIT {
                    key.concat("=").concat(value.as_str())
                } else {
                    key.concat(" (written)")
                }
            },
            None => key.concat(" (removed)"),
        };
        parts.push(part);
        assert(text::texts(parts@) =~= text::texts(before).push(f(all[i as int])));
        assert(all.take(i + 1).map_values(f) =~= all.take(i as int).map_values(f).push(
            f(all[i as int]),
        ));
        i = i + 1;
    }
    assert(all.take(all.len() as int) =~= all);
    text::join(&parts, ", ")
}

/// A taint matcher: `key` (any effect) or `key:effect`, with white space around
/// either part dropped.
pub open spec fn matcher_parts(matcher: Seq<char>) -> (Seq<char>, Option<Seq<char>>) {
    match text::split_at_first(matcher, ':') {
        Some((key, effect)) => (text::trimmed(key), Some(text::trimmed(effect))),
        None => (text::trimmed(matcher), None),
    }
}

/// Whether a matcher is for a taint. One without a key is for none.
pub open spec fn matches_taint(matcher: Seq<char>, key: Seq<char>, effect: Seq<char>) -> bool {
    let parts = matcher_parts(matcher);
    &&& parts.0.len() > 0
    &&& parts.0 == key
    &&& parts.1 is None || parts.1 == Some(effect)
}

/// Whether any of the matchers is for a taint.
pub open spec fn is_lifted(matchers: Seq<Seq<char>>, taint: objects::TaintModel) -> bool {
    exists|i: int|
        0 <= i < matchers.len() && matches_taint(#[trigger] matchers[i], taint.key, taint.effect)
}

/// The taints that stay.
pub open spec fn retained_taints(
    taints: Seq<objects::TaintModel>,
    matchers: Seq<Seq<char>>,
) -> Seq<objects::TaintModel> {
    taints.filter(|t: objects::TaintModel| !is_lifted(matchers, t))
}

/// The taints that go, as `key:effect`.
pub open spec fn removed_taints(
    taints: Seq<objects::TaintModel>,
    matchers: Seq<Seq<char>>,
) -> Seq<Seq<char>> {
    taints.filter(|t: objects::TaintModel| is_lifted(matchers, t)).map_values(
        |t: objects::TaintModel| t.key + ":"@ + t.effect,
    )
}

/// The views of a list of taints.
pub open spec fn taint_views(taints: Seq<Taint>) -> Seq<objects::TaintModel> {
    taints.map_values(|t: Taint| t@)
}

/// Whether any of the matchers is for this taint.
fn lifted(taint: &Taint, matchers: &[String]) -> (r: bool)
    ensures
        r == is_lifted(text::texts(matchers@), taint@),
{
    let ghost all = text::texts(matchers@);
    let mut i: usize = 0;
    while i < matchers.len()
        invariant
            i <= matchers@.len(),
            all == text::texts(matchers@),
            forall|j: int|
                0 <= j < i ==> !matches_taint(#[trigger] all[j], taint@.key, taint@.effect),
        decreases matchers@.len() - i,
    {
        let matcher: &str = matchers[i].as_str();
        assert(all[i as int] == matcher@);
        let hit: bool = match text::split_once(matcher, ':') {
            Some((key, effect)) => {
                let key: &str = text::trim(key);
                !key.is_empty() && text::same(key, taint.key.as_str()) && text::same(
                    text::trim(effect),
                    taint.effect.as_str(),
                )
            },
            None => {
                let key: &str = text::trim(matcher);
                !key.is_empty() && text::same(key, taint.key.as_str())
            },
        };
        if hit {
            assert(matches_taint(all[i as int], taint@.key, taint@.effect));
            return true;
        }
        i = i + 1;
    }
    false
}

/// Each matcher is `key` (any effect) or `key:effect`. A matcher that matches
/// nothing is not an error: on a re-run the taint is already gone, which is the
/// expected steady state.
pub fn partition_taints(taints: &[Taint], matchers: &[String]) -> (r: (Vec<Taint>, Vec<String>))
    ensures
        taint_views(r.0@) == retained_taints(taint_views(taints@), text::texts(matchers@)),
        text::texts(r.1@) == removed_taints(taint_views(taints@), text::texts(matchers@)),
{
    let mut retained: Vec<Taint> = Vec::new();
    let mut removed: Vec<String> = Vec::new();
    let ghost all = taint_views(taints@);
    let ghost ms = text::texts(matchers@);
    let ghost stays = |t: objects::TaintModel| !is_lifted(ms, t);
    let ghost goes = |t: objects::TaintModel| is_lifted(ms, t);
    let ghost f = |t: objects::TaintModel| t.key + ":"@ + t.effect;
    let mut i: usize = 0;
    proof {
        reveal_with_fuel(Seq::filter, 1);
        assert(taint_views(retained@) =~= all.take(0).filter(stays));
        assert(text::texts(removed@) =~= all.take(0).filter(goes).map_values(f));
    }
    while i < taints.len()
        invariant
            i <= taints@.len(),
            all == taint_views(taints@),
            ms == text::texts(matchers@),
            stays == (|t: objects::TaintModel| !is_lifted(ms, t)),
            goes == (|t: objects::TaintModel| is_lifted(ms, t)),
            f == (|t: objects::TaintModel| t.key + ":"@ + t.effect),
            taint_views(retained@) == all.take(i as int).filter(stays),
            text::texts(removed@) == all.take(i as int).filter(goes).map_values(f),
        decreases taints@.len() - i,
    {
        let ghost before_r = retained@;
        let ghost before_x = removed@;
        let ghost t = all[i as int];
        proof {
            reveal_with_fuel(Seq::filter, 1);
            assert(all.take(i + 1).drop_last() =~= all.take(i as int));
            assert(all.take(i + 1).last() == t);
        }
        if lifted(&taints[i], matchers) {
            removed.push(taints[i].key.clone().concat(":").concat(taints[i].effect.as_str()));
            proof {
                let gone = all.take(i as int).filter(goes);
                assert(text::texts(removed@) =~= text::texts(before_x).push(f(t)));
                assert(gone.push(t).map_values(f) =~= gone.map_values(f).push(f(t)));
            }
        } else {
            retained.push(taints[i].clone());
            assert(taint_views(retained@) =~= taint_views(before_r).push(t));
        }
        i = i + 1;
    }
    assert(all.take(all.len() as int) =~= all);
    (retained, removed)
}

/// A taint as a node's `spec.taints` writes it.
pub open spec fn taint_json(taint: objects::TaintModel) -> JsonModel {
    let base = Map::empty().insert("effect"@, JsonModel::Text(taint.effect)).insert(
        "key"@,
        JsonModel::Text(taint.key),
    );
    let timed = match taint.time_added {
        Some(time) => base.insert("timeAdded"@, JsonModel::Text(time)),
        None => base,
    };
    JsonModel::Object(
        match taint.value {
            Some(value) => timed.insert("value"@, JsonModel::Text(value)),
            None => timed,
        },
    )
}

/// Builds a taint as a node's `spec.taints` writes it.
fn taint_value(taint: &Taint) -> (r: serde_json::Value)
    ensures
        json::json_model(r) == taint_json(taint@),
{
    let mut fields: Vec<(String, serde_json::Value)> = Vec::new();
    fields.push(("effect".to_string(), json::json_text(taint.effect.as_str())));
    let ghost f1 = fields@;
    fields.push(("key".to_string(), json::json_text(taint.key.as_str())));
    let ghost f2 = fields@;
    proof {
        reveal_with_fuel(json::fields_model, 3);
        assert(f1.drop_last() =~= Seq::empty());
        assert(f2.drop_last() =~= f1);
        assert(json::fields_model(f1) == Map::<Seq<char>, JsonModel>::empty().insert(
            "effect"@,
            JsonModel::Text(taint@.effect),
        ));
    }
    if let Some(time) = &taint.time_added {
        fields.push(("timeAdded".to_string(), json::json_text(time.as_str())));
        assert(fields@.drop_last() =~= f2);
    }
    let ghost f3 = fields@;
    if let Some(value) = &taint.value {
        fields.push(("value".to_string(), json::json_text(value.as_str())));
        assert(fields@.drop_last() =~= f3);
    }
    json::json_object(fields)
}

/// The patch that writes a list of taints back.
pub open spec fn taint_patch_model(
    uid: Seq<char>,
    version: Seq<char>,
    retained: Seq<objects::TaintModel>,
) -> Seq<JsonModel> {
    guards(uid, version).push(
        json::replace_op(
            "/spec/taints"@,
            JsonModel::List(retained.map_values(|t: objects::TaintModel| taint_json(t))),
        ),
    )
}

/// The guarded patch that writes a list of taints back.
///
/// `.spec.taints` is atomic server-side, so removing one means writing the
/// whole list back, which would silently drop a taint added meanwhile - in the
/// direction that lets workloads in. Testing the resource version makes that a
/// rejected write instead.
pub fn taint_patch_ops(expected_uid: &str, version: &str, retained: &[Taint]) -> (r: Vec<
    serde_json::Value,
>)
    ensures
        json::json_models(r@) == taint_patch_model(
            expected_uid@,
            version@,
            taint_views(retained@),
        ),
{
    let mut ops: Vec<serde_json::Value> = guard_ops(expected_uid, version);
    let mut items: Vec<serde_json::Value> = Vec::new();
    let ghost all = taint_views(retained@);
    let ghost f = |t: objects::TaintModel| taint_json(t);
    let mut i: usize = 0;
    assert(json::json_models(items@) =~= all.take(0).map_values(f));
    while i < retained.len()
        invariant
            i <= retained@.len(),
            all == taint_views(retained@),
            f == (|t: objects::TaintModel| taint_json(t)),
            json::json_models(items@) == all.take(i as int).map_values(f),
        decreases retained@.len() - i,
    {
        let ghost before = items@;
        items.push(taint_value(&retained[i]));
        assert(json::json_models(items@) =~= json::json_models(before).push(f(all[i as int])));
        assert(all.take(i + 1).map_values(f) =~= all.take(i as int).map_values(f).push(
            f(all[i as int]),
        ));
        i = i + 1;
    }
    assert(all.take(all.len() as int) =~= all);
    ops.push(json::replace_operation("/spec/taints", json::json_list(items)));
    assert(json::json_models(ops@) =~= taint_patch_model(expected_uid@, version@, all));
    ops
}

/// Every operation of a claim is one that a JSON Patch can hold.
pub proof fn law_claims_are_well_formed(
    uid: Seq<char>,
    version: Seq<char>,
    on_node: Map<Seq<char>, Seq<char>>,
    labelling: NodeLabelling,
)
    ensures
        forall|i: int|
            0 <= i < claim_model(uid, version, on_node, labelling).len() ==> json::is_operation(
                #[trigger] claim_model(uid, version, on_node, labelling)[i],
            ),
{
    lemma_guards_are_operations(uid, version);
    lemma_parents_are_pointers();
    let missing = missing_keys(on_node, labelling);
    let pending = labelling.pending_value@;
    let ops = claim_model(uid, version, on_node, labelling);
    assert forall|i: int| 0 <= i < ops.len() implies json::is_operation(#[trigger] ops[i]) by {
        if i < 2 {
            assert(ops[i] == guards(uid, version)[i]);
        } else if on_node == Map::<Seq<char>, Seq<char>>::empty() {
            let value = JsonModel::Object(each_at(missing, pending));
            assert(ops[i] == json::value_op("add"@, "/metadata/labels"@, value));
        } else {
            lemma_write_is_operation("/metadata/labels"@, (missing[i - 2], Some(pending)));
            assert(ops[i] == write_op("/metadata/labels"@, (missing[i - 2], Some(pending))));
        }
    }
}

/// The guarded patch that claims a node, or `None` when every key is there already.
pub fn claim_patch(
    expected_uid: &str,
    version: &str,
    on_node: &StringMap,
    labelling: &NodeLabelling,
) -> (r: Option<Result<json_patch::Patch, serde_json::Error>>)
    ensures
        match r {
            Some(built) => {
                &&& missing_keys(on_node@, *labelling).len() > 0
                &&& built matches Ok(patch) && json::patch_model(patch) == claim_model(
                    expected_uid@,
                    version@,
                    on_node@,
                    *labelling,
                )
            },
            None => missing_keys(on_node@, *labelling).len() == 0,
        },
{
    match claim_ops(expected_uid, version, on_node, labelling) {
        Some(ops) => {
            proof {
                law_claims_are_well_formed(expected_uid@, version@, on_node@, *labelling);
            }
            Some(json::patch_from(ops))
        },
        None => None,
    }
}

/// Every operation of a result patch is one that a JSON Patch can hold.
pub proof fn law_results_are_well_formed(
    uid: Seq<char>,
    version: Seq<char>,
    keys: ResultKeys,
    on_node: Map<Seq<char>, Seq<char>>,
    notes: Map<Seq<char>, Seq<char>>,
    writes: Seq<(Seq<char>, Option<Seq<char>>)>,
)
    ensures
        forall|i: int|
            0 <= i < result_model(uid, version, keys, on_node, notes, writes).len()
                ==> json::is_operation(
                #[trigger] result_model(uid, version, keys, on_node, notes, writes)[i],
            ),
{
    lemma_guards_are_operations(uid, version);
    lemma_parents_are_pointers();
    let parents = result_parents(on_node, notes);
    let changes = result_changes(keys, on_node, notes, writes);
    let ops = result_model(uid, version, keys, on_node, notes, writes);
    let empty = JsonModel::Object(Map::empty());
    assert forall|i: int| 0 <= i < ops.len() implies json::is_operation(#[trigger] ops[i]) by {
        if i < 2 {
            assert(ops[i] == guards(uid, version)[i]);
        } else if i < 2 + parents.len() {
            assert(ops[i] == parents[i - 2]);
            assert(ops[i] == json::value_op("add"@, "/metadata/labels"@, empty) || ops[i]
                == json::value_op("add"@, "/metadata/annotations"@, empty));
        } else {
            let w = changes[i - 2 - parents.len()];
            lemma_write_is_operation(result_parent(keys, w.0), w);
            assert(ops[i] == write_op(result_parent(keys, w.0), w));
        }
    }
}

/// The guarded patch recording a node's result, or `None` when the node already
/// says exactly this.
pub fn result_patch(
    expected_uid: &str,
    version: &str,
    keys: &ResultKeys,
    on_node: &StringMap,
    notes: &StringMap,
    updates: &[(String, Option<String>)],
) -> (r: Option<Result<json_patch::Patch, serde_json::Error>>)
    ensures
        match r {
            Some(built) => {
                &&& result_changes(*keys, on_node@, notes@, labels::writes(updates@)).len() > 0
                &&& built matches Ok(patch) && json::patch_model(patch) == result_model(
                    expected_uid@,
                    version@,
                    *keys,
                    on_node@,
                    notes@,
                    labels::writes(updates@),
                )
            },
            None => result_changes(*keys, on_node@, notes@, labels::writes(updates@)).len() == 0,
        },
{
    match result_patch_ops(expected_uid, version, keys, on_node, notes, updates) {
        Some(ops) => {
            proof {
                law_results_are_well_formed(
                    expected_uid@,
                    version@,
                    *keys,
                    on_node@,
                    notes@,
                    labels::writes(updates@),
                );
            }
            Some(json::patch_from(ops))
        },
        None => None,
    }
}

/// Every operation of a taint patch is one that a JSON Patch can hold.
pub proof fn law_taint_patches_are_well_formed(
    uid: Seq<char>,
    version: Seq<char>,
    retained: Seq<objects::TaintModel>,
)
    ensures
        forall|i: int|
            0 <= i < taint_patch_model(uid, version, retained).len() ==> json::is_operation(
                #[trigger] taint_patch_model(uid, version, retained)[i],
            ),
{
    lemma_guards_are_operations(uid, version);
    lemma_parents_are_pointers();
    let ops = taint_patch_model(uid, version, retained);
    let value = JsonModel::List(retained.map_values(|t: objects::TaintModel| taint_json(t)));
    assert forall|i: int| 0 <= i < ops.len() implies json::is_operation(#[trigger] ops[i]) by {
        if i < 2 {
            assert(ops[i] == guards(uid, version)[i]);
        } else {
            let shape = json::value_op("add"@, "/spec/taints"@, value);
            assert(ops[i] == json::replace_op("/spec/taints"@, value));
        }
    }
}

/// The guarded patch that writes a list of taints back.
pub fn taint_patch(expected_uid: &str, version: &str, retained: &[Taint]) -> (r: Result<
    json_patch::Patch,
    serde_json::Error,
>)
    ensures
        r matches Ok(patch) && json::patch_model(patch) == taint_patch_model(
            expected_uid@,
            version@,
            taint_views(retained@),
        ),
{
    let ops: Vec<serde_json::Value> = taint_patch_ops(expected_uid, version, retained);
    proof {
        law_taint_patches_are_well_formed(expected_uid@, version@, taint_views(retained@));
    }
    json::patch_from(ops)
}

} // verus!
