//! What holds of the writes to a node, whatever the node carries.

use crate::guarded;
use crate::guarded::{Change, Intent};
use crate::json;
use crate::json::JsonModel;
use crate::labels;
use crate::nodes;
use crate::nodes::{InstanceMarker, NodeLabelling, ResultKeys, SharedLabel};
use crate::objects;
use crate::text;
use crate::waits;
use crate::waits::WaitStep;
use crate::writes;
use vstd::prelude::*;

verus! {

/// A key that no write names is left as it is.
pub proof fn lemma_unnamed_key_stays(
    map: Map<Seq<char>, Seq<char>>,
    list: Seq<(Seq<char>, Option<Seq<char>>)>,
    key: Seq<char>,
)
    requires
        forall|i: int| 0 <= i < list.len() ==> (#[trigger] list[i]).0 != key,
    ensures
        labels::lookup(labels::all_written(map, list), key) == labels::lookup(map, key),
    decreases list.len(),
{
    if list.len() > 0 {
        assert forall|i: int| 0 <= i < list.drop_last().len() implies (
        #[trigger] list.drop_last()[i]).0 != key by {
            assert(list.drop_last()[i] == list[i]);
        }
        lemma_unnamed_key_stays(map, list.drop_last(), key);
        assert(list.last() == list[list.len() - 1]);
    }
}

/// What the last write to a key says is what stands there, where every write to the
/// key says the same.
pub proof fn lemma_named_key_is_written(
    map: Map<Seq<char>, Seq<char>>,
    list: Seq<(Seq<char>, Option<Seq<char>>)>,
    at: int,
)
    requires
        0 <= at < list.len(),
        forall|i: int|
            0 <= i < list.len() && (#[trigger] list[i]).0 == list[at].0 ==> list[i].1 == list[at].1,
    ensures
        labels::lookup(labels::all_written(map, list), list[at].0) == list[at].1,
    decreases list.len(),
{
    let last = list.len() - 1;
    assert(list.last() == list[last]);
    if at < last && list[last].0 != list[at].0 {
        let head = list.drop_last();
        assert forall|i: int| 0 <= i < head.len() && (#[trigger] head[i]).0
            == head[at].0 implies head[i].1 == head[at].1 by {
            assert(head[i] == list[i]);
        }
        assert(head[at] == list[at]);
        lemma_named_key_is_written(map, head, at);
    }
}

/// Demotion takes no label away: a node whose cleanup fails can still be found.
pub proof fn law_demotion_takes_no_key_away(
    on_node: Map<Seq<char>, Seq<char>>,
    labelling: NodeLabelling,
)
    ensures
        labels::all_written(on_node, writes::demotions(on_node, labelling)).dom() == on_node.dom(),
{
    let list = writes::demotions(on_node, labelling);
    reveal_with_fuel(labels::all_written, 3);
    assert(list.len() <= 2);
    if list.len() == 2 {
        assert(list.drop_last().drop_last() =~= Seq::empty());
        assert(list.drop_last().last() == list[0]);
    } else if list.len() == 1 {
        assert(list.drop_last() =~= Seq::empty());
    }
    assert(labels::all_written(on_node, list).dom() =~= on_node.dom());
}

/// After demotion nothing is selected onto the node through this instance: its mark
/// is pending or absent, and so is the shared key unless another instance is serving.
pub proof fn law_demotion_stops_selection(
    on_node: Map<Seq<char>, Seq<char>>,
    labelling: NodeLabelling,
)
    ensures
        ({
            let after = labels::all_written(on_node, writes::demotions(on_node, labelling));
            let pending = labelling.pending_value@;
            &&& nodes::shared_after(on_node, labelling) != SharedLabel::Keep ==> (
            !after.contains_key(labelling.key@) || after[labelling.key@] == pending)
            &&& labelling.instance matches Some(marker) ==> (!after.contains_key(marker.key_text())
                || after[marker.key_text()] == pending)
        }),
{
    let list = writes::demotions(on_node, labelling);
    reveal_with_fuel(labels::all_written, 3);
    if list.len() == 2 {
        assert(list.drop_last().drop_last() =~= Seq::empty());
        assert(list.drop_last().last() == list[0]);
    } else if list.len() == 1 {
        assert(list.drop_last() =~= Seq::empty());
    }
}

/// While another instance is serving from the node, neither demotion nor release
/// touches the shared key.
pub proof fn law_a_serving_instance_keeps_the_shared_key(
    on_node: Map<Seq<char>, Seq<char>>,
    labelling: NodeLabelling,
    extra: Seq<(Seq<char>, Seq<char>)>,
)
    requires
        nodes::shared_after(on_node, labelling) == SharedLabel::Keep,
        is_bookkeeping(labelling, extra),
    ensures
        labels::lookup(
            labels::all_written(on_node, writes::demotions(on_node, labelling)),
            labelling.key@,
        ) == labels::lookup(on_node, labelling.key@),
        labels::lookup(
            labels::all_written(on_node, writes::releases(on_node, labelling, extra)),
            labelling.key@,
        ) == labels::lookup(on_node, labelling.key@),
{
    lemma_unnamed_key_stays(on_node, writes::demotions(on_node, labelling), labelling.key@);
    law_release_lets_go(on_node, labelling, extra);
}

/// The keys of a run are told apart: its mark is not the shared key, and no extra
/// label is either of them.
pub open spec fn is_bookkeeping(
    labelling: NodeLabelling,
    extra: Seq<(Seq<char>, Seq<char>)>,
) -> bool {
    &&& labelling.instance matches Some(marker) ==> marker.key_text() != labelling.key@
    &&& forall|i: int|
        0 <= i < extra.len() ==> !labelling.key_list().contains((#[trigger] extra[i]).0)
}

/// The removals of extra labels name only the keys of extra labels, and every one
/// that the node carries.
proof fn lemma_extra_removals(
    on_node: Map<Seq<char>, Seq<char>>,
    extra: Seq<(Seq<char>, Seq<char>)>,
)
    ensures
        forall|i: int|
            0 <= i < writes::extra_removals(on_node, extra).len() ==> ({
                let w = #[trigger] writes::extra_removals(on_node, extra)[i];
                &&& w.1 is None
                &&& exists|j: int| 0 <= j < extra.len() && (#[trigger] extra[j]).0 == w.0
            }),
        forall|j: int|
            0 <= j < extra.len() && on_node.contains_key((#[trigger] extra[j]).0) ==> exists|i: int|
                0 <= i < writes::extra_removals(on_node, extra).len()
                    && #[trigger] writes::extra_removals(on_node, extra)[i] == (
                    extra[j].0,
                    None::<Seq<char>>,
                ),
    decreases extra.len(),
{
    if extra.len() > 0 {
        let head = extra.drop_last();
        lemma_extra_removals(on_node, head);
        let before = writes::extra_removals(on_node, head);
        let all = writes::extra_removals(on_node, extra);
        assert forall|i: int| 0 <= i < all.len() implies ({
            let w = #[trigger] all[i];
            &&& w.1 is None
            &&& exists|j: int| 0 <= j < extra.len() && (#[trigger] extra[j]).0 == w.0
        }) by {
            if i < before.len() {
                assert(all[i] == before[i]);
                let j = choose|j: int| 0 <= j < head.len() && (#[trigger] head[j]).0 == before[i].0;
                assert(extra[j] == head[j]);
                assert(extra[j].0 == all[i].0);
            } else {
                assert(extra[extra.len() - 1].0 == all[i].0);
            }
        }
        assert forall|j: int|
            0 <= j < extra.len() && on_node.contains_key((#[trigger] extra[j]).0) implies exists|
            i: int,
        |
            0 <= i < all.len() && #[trigger] all[i] == (extra[j].0, None::<Seq<char>>) by {
            if j < head.len() {
                assert(head[j] == extra[j]);
                let i = choose|i: int|
                    0 <= i < before.len() && #[trigger] before[i] == (head[j].0, None::<Seq<char>>);
                assert(all[i] == before[i]);
            } else {
                assert(all[all.len() - 1] == (extra[j].0, None::<Seq<char>>));
            }
        }
    }
}

/// Letting go of a node takes this instance's mark and its extra labels away, and
/// does to the shared key what the other instances' marks call for: it stays while
/// one of them is serving, goes down to the pending value while one has claimed the
/// node, and goes with the last mark. Every other label is left as it is.
pub proof fn law_release_lets_go(
    on_node: Map<Seq<char>, Seq<char>>,
    labelling: NodeLabelling,
    extra: Seq<(Seq<char>, Seq<char>)>,
)
    requires
        is_bookkeeping(labelling, extra),
    ensures
        ({
            let after = labels::all_written(
                on_node,
                writes::releases(on_node, labelling, extra),
            );
            &&& labelling.instance matches Some(marker) ==> !after.contains_key(marker.key_text())
            &&& forall|j: int|
                0 <= j < extra.len() ==> !after.contains_key((#[trigger] extra[j]).0)
            &&& match nodes::shared_after(on_node, labelling) {
                SharedLabel::Keep => labels::lookup(after, labelling.key@) == labels::lookup(
                    on_node,
                    labelling.key@,
                ),
                SharedLabel::Demote => labels::lookup(after, labelling.key@) == Some(
                    labelling.pending_value@,
                ),
                SharedLabel::Remove => !after.contains_key(labelling.key@),
            }
            &&& forall|key: Seq<char>|
                !labelling.key_list().contains(key) && (forall|j: int|
                    0 <= j < extra.len() ==> (#[trigger] extra[j]).0 != key)
                    ==> #[trigger] labels::lookup(after, key) == labels::lookup(on_node, key)
        }),
{
    let list = writes::releases(on_node, labelling, extra);
    let after = labels::all_written(on_node, list);
    let shared = writes::shared_release(on_node, labelling);
    let own = match labelling.instance {
        Some(marker) => if on_node.contains_key(marker.key_text()) {
            seq![(marker.key_text(), None::<Seq<char>>)]
        } else {
            Seq::empty()
        },
        None => Seq::empty(),
    };
    let tail = writes::extra_removals(on_node, extra);
    assert(list =~= own + shared + tail);
    lemma_extra_removals(on_node, extra);
    let keys = labelling.key_list();
    assert(keys[0] == labelling.key@);
    assert(keys.contains(labelling.key@));
    assert(labelling.instance matches Some(marker) ==> keys[1] == marker.key_text());
    // Every write of the list is of one of three kinds.
    assert forall|i: int| 0 <= i < list.len() implies ({
        let w = #[trigger] list[i];
        ||| i < own.len() && w == own[i]
        ||| own.len() <= i < own.len() + shared.len() && w == shared[i - own.len()]
        ||| i >= own.len() + shared.len() && w == tail[i - own.len() - shared.len()]
    }) by {}
    assert forall|i: int| 0 <= i < tail.len() implies !keys.contains((#[trigger] tail[i]).0) by {
        let j = choose|j: int| 0 <= j < extra.len() && (#[trigger] extra[j]).0 == tail[i].0;
        assert(!keys.contains(extra[j].0));
    }
    // The mark.
    if let Some(marker) = labelling.instance {
        let key = marker.key_text();
        assert(keys.contains(key));
        if on_node.contains_key(key) {
            assert(list[0] == (key, None::<Seq<char>>));
            assert forall|i: int| 0 <= i < list.len() && (#[trigger] list[i]).0
                == list[0].0 implies list[i].1 == list[0].1 by {}
            lemma_named_key_is_written(on_node, list, 0);
        } else {
            assert forall|i: int| 0 <= i < list.len() implies (#[trigger] list[i]).0 != key by {}
            lemma_unnamed_key_stays(on_node, list, key);
        }
    }
    // The shared key.
    if shared.len() > 0 {
        let at = own.len() as int;
        assert(list[at] == shared[0]);
        assert forall|i: int| 0 <= i < list.len() && (#[trigger] list[i]).0
            == list[at].0 implies list[i].1 == list[at].1 by {}
        lemma_named_key_is_written(on_node, list, at);
    } else {
        assert forall|i: int| 0 <= i < list.len() implies (#[trigger] list[i]).0
            != labelling.key@ by {}
        lemma_unnamed_key_stays(on_node, list, labelling.key@);
    }
    // The extra labels.
    assert forall|j: int| 0 <= j < extra.len() implies !after.contains_key(
        (#[trigger] extra[j]).0,
    ) by {
        let key = extra[j].0;
        assert(!keys.contains(key));
        if on_node.contains_key(key) {
            let k = choose|k: int|
                0 <= k < tail.len() && #[trigger] tail[k] == (key, None::<Seq<char>>);
            let at = own.len() + shared.len() + k;
            assert(list[at] == tail[k]);
            assert forall|i: int| 0 <= i < list.len() && (#[trigger] list[i]).0
                == list[at].0 implies list[i].1 == list[at].1 by {}
            lemma_named_key_is_written(on_node, list, at);
        } else {
            assert forall|i: int| 0 <= i < list.len() && (#[trigger] list[i]).0
                == key implies list[i].1 is None by {}
            lemma_never_set_stays_absent(on_node, list, key);
        }
    }
    // Everything else.
    assert forall|key: Seq<char>|
        !keys.contains(key) && (forall|j: int|
            0 <= j < extra.len() ==> (#[trigger] extra[j]).0 != key) implies #[trigger] labels::lookup(
        after,
        key,
    ) == labels::lookup(on_node, key) by {
        assert forall|i: int| 0 <= i < list.len() implies (#[trigger] list[i]).0 != key by {
            if i >= own.len() + shared.len() {
                let w = tail[i - own.len() - shared.len()];
                let j = choose|j: int| 0 <= j < extra.len() && (#[trigger] extra[j]).0 == w.0;
                assert(extra[j].0 == list[i].0);
            }
        }
        lemma_unnamed_key_stays(on_node, list, key);
    }
}

/// A key that is absent and that no write sets stays absent.
proof fn lemma_never_set_stays_absent(
    map: Map<Seq<char>, Seq<char>>,
    list: Seq<(Seq<char>, Option<Seq<char>>)>,
    key: Seq<char>,
)
    requires
        !map.contains_key(key),
        forall|i: int| 0 <= i < list.len() && (#[trigger] list[i]).0 == key ==> list[i].1 is None,
    ensures
        !labels::all_written(map, list).contains_key(key),
    decreases list.len(),
{
    if list.len() > 0 {
        let head = list.drop_last();
        assert forall|i: int| 0 <= i < head.len() && (#[trigger] head[i]).0
            == key implies head[i].1 is None by {
            assert(head[i] == list[i]);
        }
        lemma_never_set_stays_absent(map, head, key);
        assert(list.last() == list[list.len() - 1]);
    }
}

/// Of two instances that share a key, the second to let go takes it away: whichever
/// order they come in, no node is left advertised with nothing behind it.
pub proof fn law_the_last_release_takes_the_shared_key(
    on_node: Map<Seq<char>, Seq<char>>,
    one: NodeLabelling,
    other: NodeLabelling,
)
    requires
        one.key@ == other.key@,
        one.pending_value@ == other.pending_value@,
        one.instance is Some,
        other.instance is Some,
        one.instance->0.prefix_text() == other.instance->0.prefix_text(),
        one.instance->0.key_text() != one.key@,
        other.instance->0.key_text() != one.key@,
        !nodes::stands_below(one.instance->0.prefix_text(), one.key@),
        forall|key: Seq<char>| #[trigger]
            nodes::is_other_mark(on_node, one.instance->0, key) ==> key
                == other.instance->0.key_text(),
    ensures
        ({
            let first = labels::all_written(
                on_node,
                writes::releases(on_node, one, Seq::empty()),
            );
            let second = labels::all_written(
                first,
                writes::releases(first, other, Seq::empty()),
            );
            !second.contains_key(one.key@)
        }),
{
    let none = Seq::<(Seq<char>, Seq<char>)>::empty();
    let first = labels::all_written(on_node, writes::releases(on_node, one, none));
    law_release_lets_go(on_node, one, none);
    law_release_lets_go(first, other, none);
    let a = one.instance->0;
    let b = other.instance->0;
    assert forall|key: Seq<char>| !#[trigger] nodes::is_other_mark(first, b, key) by {
        if nodes::is_other_mark(first, b, key) {
            assert(key != one.key@);
            assert(key != a.key_text());
            assert(one.key_list() =~= seq![one.key@, a.key_text()]);
            assert(!one.key_list().contains(key));
            assert(labels::lookup(first, key) == labels::lookup(on_node, key));
            assert(nodes::is_other_mark(on_node, a, key));
        }
    }
    assert(nodes::shared_after(first, other) == SharedLabel::Remove);
}

/// The writes of a claim.
pub open spec fn claim_writes(
    on_node: Map<Seq<char>, Seq<char>>,
    labelling: NodeLabelling,
) -> Seq<(Seq<char>, Option<Seq<char>>)> {
    writes::missing_keys(on_node, labelling).map_values(
        |key: Seq<char>| (key, Some(labelling.pending_value@)),
    )
}

/// A claim changes no label that the node carries, and leaves it carrying every key
/// of the instance, so a later cleanup can find it and a second claim has nothing to
/// write.
pub proof fn law_a_claim_makes_the_node_discoverable(
    on_node: Map<Seq<char>, Seq<char>>,
    labelling: NodeLabelling,
)
    ensures
        ({
            let after = labels::all_written(on_node, claim_writes(on_node, labelling));
            &&& forall|key: Seq<char>|
                on_node.contains_key(key) ==> #[trigger] labels::lookup(after, key)
                    == labels::lookup(on_node, key)
            &&& after.contains_key(labelling.ownership())
            &&& writes::missing_keys(after, labelling).len() == 0
        }),
{
    let absent = |key: Seq<char>| !on_node.contains_key(key);
    let missing = writes::missing_keys(on_node, labelling);
    let list = claim_writes(on_node, labelling);
    let after = labels::all_written(on_node, list);
    let keys = labelling.key_list();
    broadcast use vstd::seq_lib::group_filter_ensures;

    assert forall|key: Seq<char>| on_node.contains_key(key) implies #[trigger] labels::lookup(
        after,
        key,
    ) == labels::lookup(on_node, key) by {
        assert forall|i: int| 0 <= i < list.len() implies (#[trigger] list[i]).0 != key by {
            assert(absent(missing[i]));
        }
        lemma_unnamed_key_stays(on_node, list, key);
    }
    assert forall|k: int| 0 <= k < keys.len() implies after.contains_key(#[trigger] keys[k]) by {
        let key = keys[k];
        if on_node.contains_key(key) {
            assert(labels::lookup(after, key) == labels::lookup(on_node, key));
        } else {
            assert(absent(key));
            assert(missing.contains(key));
            let i = choose|i: int| 0 <= i < missing.len() && missing[i] == key;
            assert(list[i] == (key, Some(labelling.pending_value@)));
            assert forall|j: int| 0 <= j < list.len() && (#[trigger] list[j]).0
                == list[i].0 implies list[j].1 == list[i].1 by {}
            lemma_named_key_is_written(on_node, list, i);
            assert(labels::lookup(after, key) is Some);
        }
    }
    assert(after.contains_key(keys[keys.len() - 1]));
    let still = |key: Seq<char>| !after.contains_key(key);
    if writes::missing_keys(after, labelling).len() > 0 {
        let left = keys.filter(still);
        assert(left.contains(left[0]));
        keys.lemma_filter_contains_rev(still, left[0]);
    }
}

/// Every patch that a run sends starts by testing the UID that the node was selected
/// as and the version that the decision was read from.
pub proof fn law_every_patch_is_guarded(
    uid: Seq<char>,
    version: Seq<char>,
    writes: Seq<(Seq<char>, Option<Seq<char>>)>,
    on_node: Map<Seq<char>, Seq<char>>,
    notes: Map<Seq<char>, Seq<char>>,
    labelling: NodeLabelling,
    keys: ResultKeys,
    retained: Seq<objects::TaintModel>,
)
    ensures
        writes::guards(uid, version).is_prefix_of(
            writes::label_patch_model(uid, version, writes),
        ),
        writes::guards(uid, version).is_prefix_of(
            writes::claim_model(uid, version, on_node, labelling),
        ),
        writes::guards(uid, version).is_prefix_of(
            writes::result_model(uid, version, keys, on_node, notes, writes),
        ),
        writes::guards(uid, version).is_prefix_of(
            writes::taint_patch_model(uid, version, retained),
        ),
{
    let head = writes::guards(uid, version);
    let a = writes::label_patch_model(uid, version, writes);
    let b = writes::claim_model(uid, version, on_node, labelling);
    let c = writes::result_model(uid, version, keys, on_node, notes, writes);
    let d = writes::taint_patch_model(uid, version, retained);
    assert(a.subrange(0, 2) =~= head);
    assert(b.subrange(0, 2) =~= head);
    assert(c.subrange(0, 2) =~= head);
    assert(d.subrange(0, 2) =~= head);
}

/// The labels that the writes of a result leave.
pub open spec fn labels_after_result(
    keys: ResultKeys,
    on_node: Map<Seq<char>, Seq<char>>,
    changes: Seq<(Seq<char>, Option<Seq<char>>)>,
) -> Map<Seq<char>, Seq<char>> {
    labels::all_written(
        on_node,
        changes.filter(|w: (Seq<char>, Option<Seq<char>>)| w.0 == keys.state@),
    )
}

/// The annotations that the writes of a result leave.
pub open spec fn notes_after_result(
    keys: ResultKeys,
    notes: Map<Seq<char>, Seq<char>>,
    changes: Seq<(Seq<char>, Option<Seq<char>>)>,
) -> Map<Seq<char>, Seq<char>> {
    labels::all_written(
        notes,
        changes.filter(|w: (Seq<char>, Option<Seq<char>>)| w.0 != keys.state@),
    )
}

/// A result that was recorded is not recorded again: once its changes are made, the
/// node already says exactly this.
pub proof fn law_a_recorded_result_is_left_alone(
    keys: ResultKeys,
    on_node: Map<Seq<char>, Seq<char>>,
    notes: Map<Seq<char>, Seq<char>>,
    list: Seq<(Seq<char>, Option<Seq<char>>)>,
)
    requires
        forall|i: int, j: int|
            0 <= i < j < list.len() ==> (#[trigger] list[i]).0 != (#[trigger] list[j]).0,
    ensures
        ({
            let changes = writes::result_changes(keys, on_node, notes, list);
            writes::result_changes(
                keys,
                labels_after_result(keys, on_node, changes),
                notes_after_result(keys, notes, changes),
                list,
            ).len() == 0
        }),
{
    broadcast use vstd::seq_lib::group_filter_ensures;

    let changes = writes::result_changes(keys, on_node, notes, list);
    let differs = |w: (Seq<char>, Option<Seq<char>>)|
        w.1 != writes::result_present(keys, on_node, notes, w.0);
    let after_labels = labels_after_result(keys, on_node, changes);
    let after_notes = notes_after_result(keys, notes, changes);
    let still = |w: (Seq<char>, Option<Seq<char>>)|
        w.1 != writes::result_present(keys, after_labels, after_notes, w.0);
    assert forall|k: int| 0 <= k < list.len() implies !still(#[trigger] list[k]) by {
        let w = list[k];
        let part = if w.0 == keys.state@ {
            changes.filter(|c: (Seq<char>, Option<Seq<char>>)| c.0 == keys.state@)
        } else {
            changes.filter(|c: (Seq<char>, Option<Seq<char>>)| c.0 != keys.state@)
        };
        let base = if w.0 == keys.state@ {
            on_node
        } else {
            notes
        };
        // Every change is one of the list, and so is every change of this side.
        assert forall|i: int| 0 <= i < part.len() && (#[trigger] part[i]).0 == w.0 implies part[i]
            == w by {
            assert(part.contains(part[i]));
            if w.0 == keys.state@ {
                changes.lemma_filter_contains_rev(
                    |c: (Seq<char>, Option<Seq<char>>)| c.0 == keys.state@,
                    part[i],
                );
            } else {
                changes.lemma_filter_contains_rev(
                    |c: (Seq<char>, Option<Seq<char>>)| c.0 != keys.state@,
                    part[i],
                );
            }
            list.lemma_filter_contains_rev(differs, part[i]);
            let j = choose|j: int| 0 <= j < list.len() && list[j] == part[i];
            if j < k {
                assert(list[j].0 != list[k].0);
            } else if k < j {
                assert(list[k].0 != list[j].0);
            }
        }
        if differs(w) {
            assert(changes.contains(w));
            let c = choose|c: int| 0 <= c < changes.len() && changes[c] == w;
            assert(part.contains(changes[c]));
            let at = choose|at: int| 0 <= at < part.len() && part[at] == w;
            lemma_named_key_is_written(base, part, at);
        } else {
            assert forall|i: int| 0 <= i < part.len() implies (#[trigger] part[i]).0 != w.0 by {
                if part[i].0 == w.0 {
                    assert(part[i] == w);
                    assert(part.contains(part[i]));
                    if w.0 == keys.state@ {
                        changes.lemma_filter_contains_rev(
                            |c: (Seq<char>, Option<Seq<char>>)| c.0 == keys.state@,
                            w,
                        );
                    } else {
                        changes.lemma_filter_contains_rev(
                            |c: (Seq<char>, Option<Seq<char>>)| c.0 != keys.state@,
                            w,
                        );
                    }
                    let c = choose|c: int| 0 <= c < changes.len() && changes[c] == w;
                    assert(differs(changes[c]));
                }
            }
            lemma_unnamed_key_stays(base, part, w.0);
        }
    }
    let left = list.filter(still);
    if left.len() > 0 {
        assert(left.contains(left[0]));
        list.lemma_filter_contains_rev(still, left[0]);
    }
}

/// Lifting taints twice lifts nothing the second time, and what stays is what no
/// matcher is for.
pub proof fn law_lifted_taints_stay_lifted(
    taints: Seq<objects::TaintModel>,
    matchers: Seq<Seq<char>>,
)
    ensures
        writes::removed_taints(writes::retained_taints(taints, matchers), matchers).len() == 0,
        writes::retained_taints(writes::retained_taints(taints, matchers), matchers)
            == writes::retained_taints(taints, matchers),
        forall|t: objects::TaintModel|
            taints.contains(t) && !writes::is_lifted(matchers, t)
                ==> #[trigger] writes::retained_taints(taints, matchers).contains(t),
{
    broadcast use vstd::seq_lib::group_filter_ensures;

    let stays = |t: objects::TaintModel| !writes::is_lifted(matchers, t);
    let goes = |t: objects::TaintModel| writes::is_lifted(matchers, t);
    let kept = taints.filter(stays);
    let again = kept.filter(goes);
    if again.len() > 0 {
        assert(again.contains(again[0]));
        kept.lemma_filter_contains_rev(goes, again[0]);
        let i = choose|i: int| 0 <= i < kept.len() && kept[i] == again[0];
        assert(stays(kept[i]));
        assert(goes(again[0]));
    }
    lemma_filter_keeps_all(kept, stays);
    assert forall|t: objects::TaintModel|
        taints.contains(t) && !writes::is_lifted(
            matchers,
            t,
        ) implies #[trigger] kept.contains(t) by {
        let i = choose|i: int| 0 <= i < taints.len() && taints[i] == t;
        assert(stays(taints[i]));
    }
}

/// A filter that every element passes changes nothing.
proof fn lemma_filter_keeps_all(
    taints: Seq<objects::TaintModel>,
    keep: spec_fn(objects::TaintModel) -> bool,
)
    requires
        forall|i: int| 0 <= i < taints.len() ==> keep(#[trigger] taints[i]),
    ensures
        taints.filter(keep) == taints,
    decreases taints.len(),
{
    reveal_with_fuel(Seq::filter, 1);
    if taints.len() > 0 {
        assert forall|i: int| 0 <= i < taints.drop_last().len() implies keep(
            #[trigger] taints.drop_last()[i],
        ) by {
            assert(taints.drop_last()[i] == taints[i]);
        }
        lemma_filter_keeps_all(taints.drop_last(), keep);
        assert(keep(taints[taints.len() - 1]));
        assert(taints.drop_last().push(taints.last()) =~= taints);
    }
}

/// A node at the pending value was claimed by a run that did not see it through, so
/// it is never taken for a finished one: whichever of the instance's keys stands at it, and
/// whatever value a run finishes with.
pub proof fn law_a_claimed_node_is_not_satisfied(
    labelling: NodeLabelling,
    finished: Option<Seq<char>>,
    require_handlers: Seq<Seq<char>>,
    node: objects::Node,
    at: int,
)
    requires
        0 <= at < labelling.key_list().len(),
        labels::lookup(labels::or_empty(node.labels), labelling.key_list()[at]) == Some(
            labelling.pending_value@,
        ),
    ensures
        !nodes::is_satisfied_node(Some(labelling), finished, require_handlers, node),
{
}

/// Once a node carries what a finished run writes, the run is done there as far as
/// its labels go.
pub proof fn law_finished_labels_satisfy(
    labelling: NodeLabelling,
    finished: Seq<char>,
    extra: Seq<(Seq<char>, Seq<char>)>,
    on_node: Map<Seq<char>, Seq<char>>,
)
    requires
        is_bookkeeping(labelling, extra),
    ensures
        forall|i: int|
            0 <= i < labelling.key_list().len() ==> labels::lookup(
                labels::all_written(
                    on_node,
                    writes::finished_labels(labelling, finished, extra),
                ),
                #[trigger] labelling.key_list()[i],
            ) == Some(finished),
{
    let list = writes::finished_labels(labelling, finished, extra);
    let keys = labelling.key_list();
    assert forall|i: int| 0 <= i < keys.len() implies labels::lookup(
        labels::all_written(on_node, list),
        #[trigger] keys[i],
    ) == Some(finished) by {
        assert(list[i] == (keys[i], Some(finished)));
        assert forall|j: int| 0 <= j < list.len() && (#[trigger] list[j]).0
            == list[i].0 implies list[j].1 == list[i].1 by {
            if j >= keys.len() {
                let e = extra[j - keys.len()];
                assert(list[j].0 == e.0);
                assert(keys.contains(keys[i]));
            }
        }
        lemma_named_key_is_written(on_node, list, i);
    }
}

/// An instance's own key is a mark below its prefix.
pub proof fn law_an_instances_key_is_a_mark(marker: InstanceMarker, name: Seq<char>)
    requires
        marker.key_text() == nodes::key_below(marker.prefix_text(), name),
    ensures
        nodes::stands_below(marker.prefix_text(), marker.key_text()),
{
    reveal_strlit("/");
    let whole = marker.prefix_text().push('/');
    assert(marker.key_text().subrange(0, whole.len() as int) =~= whole);
}

/// Every expected handler is either served or missing, and a verdict that names the
/// served ones names at least one.
pub proof fn law_handlers_are_told_apart(expected: Seq<Seq<char>>, served: Seq<Seq<char>>)
    ensures
        nodes::serving_of(expected, served).len() + nodes::missing_of(expected, served).len()
            == expected.len(),
        nodes::serves_any(expected, served) <==> nodes::serving_of(expected, served).len() > 0,
    decreases expected.len(),
{
    reveal_with_fuel(Seq::filter, 1);
    broadcast use vstd::seq_lib::group_filter_ensures;

    let yes = |h: Seq<char>| served.contains(h);
    let serving = expected.filter(yes);
    if expected.len() > 0 {
        law_handlers_are_told_apart(expected.drop_last(), served);
    }
    if nodes::serves_any(expected, served) {
        let i = choose|i: int| 0 <= i < expected.len() && served.contains(#[trigger] expected[i]);
        assert(yes(expected[i]));
        assert(serving.contains(expected[i]));
    }
    if serving.len() > 0 {
        assert(serving.contains(serving[0]));
        expected.lemma_filter_contains_rev(yes, serving[0]);
        let i = choose|i: int| 0 <= i < expected.len() && expected[i] == serving[0];
        assert(served.contains(expected[i]));
    }
}

/// What a matcher asks for: a taint by its key, or by its key and its effect with a colon
/// between them, with any white space around either.
pub open spec fn asks_for(matcher: Seq<char>, key: Seq<char>, effect: Seq<char>) -> bool {
    &&& key.len() > 0
    &&& text::is_bare(key)
    &&& {
        ||| !matcher.contains(':') && text::spells(matcher, key)
        ||| exists|left: Seq<char>, right: Seq<char>|
            {
                &&& matcher == #[trigger] (left + seq![':'] + right)
                &&& !left.contains(':')
                &&& text::spells(left, key)
                &&& text::is_bare(effect)
                &&& text::spells(right, effect)
            }
    }
}

/// A matcher is for the taints that it asks for as it is written, and for no others.
pub proof fn law_matchers_are_for_what_they_ask(
    matcher: Seq<char>,
    key: Seq<char>,
    effect: Seq<char>,
)
    ensures
        writes::matches_taint(matcher, key, effect) <==> asks_for(matcher, key, effect),
{
    text::law_splitting_once_loses_nothing(matcher, ':');
    match text::split_at_first(matcher, ':') {
        Some((left, right)) => {
            text::law_trimming_gives_bare_words(left, key);
            text::law_trimming_gives_bare_words(right, effect);
            assert(matcher == left + seq![':'] + right);
            assert(matcher[left.len() as int] == ':');
            assert(matcher.contains(':'));
            if asks_for(matcher, key, effect) {
                let (l, r) = choose|l: Seq<char>, r: Seq<char>|
                    {
                        &&& matcher == #[trigger] (l + seq![':'] + r)
                        &&& !l.contains(':')
                        &&& text::spells(l, key)
                        &&& text::is_bare(effect)
                        &&& text::spells(r, effect)
                    };
                text::law_splitting_once_finds_the_first(l, ':', r);
            }
        },
        None => {
            text::law_trimming_gives_bare_words(matcher, key);
            if asks_for(matcher, key, effect) && !text::spells(matcher, key) {
                let (l, r) = choose|l: Seq<char>, r: Seq<char>|
                    {
                        &&& matcher == #[trigger] (l + seq![':'] + r)
                        &&& !l.contains(':')
                        &&& text::spells(l, key)
                        &&& text::is_bare(effect)
                        &&& text::spells(r, effect)
                    };
                assert(matcher[l.len() as int] == ':');
                assert(matcher.contains(':'));
            }
        },
    }
}

/// Every matcher of the list lifts the taints that it asks for, wherever in the list it
/// stands, and what none of them asks for stays. Every taint goes one way or the other.
pub proof fn law_taints_are_lifted_by_any_matcher(
    taints: Seq<objects::TaintModel>,
    matchers: Seq<Seq<char>>,
    taint: objects::TaintModel,
)
    requires
        taints.contains(taint),
    ensures
        (exists|i: int|
            0 <= i < matchers.len() && asks_for(#[trigger] matchers[i], taint.key, taint.effect))
            <==> !writes::retained_taints(taints, matchers).contains(taint),
        writes::retained_taints(taints, matchers).len() + writes::removed_taints(
            taints,
            matchers,
        ).len() == taints.len(),
{
    broadcast use vstd::seq_lib::group_filter_ensures;

    assert forall|i: int| 0 <= i < matchers.len() implies (asks_for(
        #[trigger] matchers[i],
        taint.key,
        taint.effect,
    ) <==> writes::matches_taint(matchers[i], taint.key, taint.effect)) by {
        law_matchers_are_for_what_they_ask(matchers[i], taint.key, taint.effect);
    }
    let stays = |t: objects::TaintModel| !writes::is_lifted(matchers, t);
    let kept = taints.filter(stays);
    if writes::is_lifted(matchers, taint) {
        let i = choose|i: int|
            0 <= i < matchers.len() && writes::matches_taint(
                #[trigger] matchers[i],
                taint.key,
                taint.effect,
            );
        assert(asks_for(matchers[i], taint.key, taint.effect));
        if kept.contains(taint) {
            let k = choose|k: int| 0 <= k < kept.len() && kept[k] == taint;
            assert(stays(kept[k]));
        }
    } else {
        let k = choose|k: int| 0 <= k < taints.len() && taints[k] == taint;
        assert(stays(taints[k]));
        assert(kept.contains(taints[k]));
    }
    lemma_told_apart(taints, stays);
    let goes = |t: objects::TaintModel| writes::is_lifted(matchers, t);
    assert(goes =~= (|t: objects::TaintModel| !stays(t)));
}

/// Only a taint of the node is retained, as it was.
pub proof fn law_no_taint_is_made_up(
    taints: Seq<objects::TaintModel>,
    matchers: Seq<Seq<char>>,
    at: int,
)
    requires
        0 <= at < writes::retained_taints(taints, matchers).len(),
    ensures
        taints.contains(writes::retained_taints(taints, matchers)[at]),
{
    let stays = |t: objects::TaintModel| !writes::is_lifted(matchers, t);
    let kept = taints.filter(stays);
    assert(kept.contains(kept[at]));
    taints.lemma_filter_contains_rev(stays, kept[at]);
}

/// What a filter keeps and what it drops are all there is.
proof fn lemma_told_apart(
    taints: Seq<objects::TaintModel>,
    keep: spec_fn(objects::TaintModel) -> bool,
)
    ensures
        taints.filter(keep).len() + taints.filter(|t: objects::TaintModel| !keep(t)).len()
            == taints.len(),
    decreases taints.len(),
{
    reveal_with_fuel(Seq::filter, 1);
    if taints.len() > 0 {
        lemma_told_apart(taints.drop_last(), keep);
    }
}

/// What a node reports among its runtime handlers.
pub open spec fn reports(node: objects::Node, handler: Seq<char>) -> bool {
    &&& node.status matches Some(status)
    &&& status.runtime_handlers matches Some(entries)
    &&& exists|i: int|
        0 <= i < entries@.len() && (#[trigger] entries@[i]) is Some && entries@[i]->0@ == handler
}

/// Whether a node reports its runtime handlers at all.
pub open spec fn reports_handlers(node: objects::Node) -> bool {
    node.status matches Some(status) && status.runtime_handlers is Some
}

/// A handler is among the names of a list exactly where an entry has it.
proof fn lemma_names_among(entries: Seq<Option<String>>, handler: Seq<char>)
    ensures
        nodes::names_among(entries).contains(handler) <==> exists|i: int|
            0 <= i < entries.len() && (#[trigger] entries[i]) is Some && entries[i]->0@ == handler,
    decreases entries.len(),
{
    if entries.len() > 0 {
        let rest = entries.drop_last();
        let names = nodes::names_among(entries);
        let before = nodes::names_among(rest);
        lemma_names_among(rest, handler);
        assert(forall|i: int| 0 <= i < rest.len() ==> #[trigger] rest[i] == entries[i]);
        assert(entries.last() == entries[entries.len() - 1]);
        if before.contains(handler) {
            let k = choose|k: int| 0 <= k < before.len() && before[k] == handler;
            assert(names[k] == handler);
            let i = choose|i: int|
                0 <= i < rest.len() && (#[trigger] rest[i]) is Some && rest[i]->0@ == handler;
            assert(entries[i] == rest[i]);
        }
        if entries.last() is Some && entries.last()->0@ == handler {
            assert(names[names.len() - 1] == handler);
        }
        if names.contains(handler) && !before.contains(handler) {
            let k = choose|k: int| 0 <= k < names.len() && names[k] == handler;
            if k < before.len() {
                assert(before[k] == handler);
            }
        }
        if exists|i: int|
            0 <= i < entries.len() && (#[trigger] entries[i]) is Some && entries[i]->0@ == handler {
            let i = choose|i: int|
                0 <= i < entries.len() && (#[trigger] entries[i]) is Some && entries[i]->0@ == handler;
            if i < rest.len() {
                assert(rest[i] == entries[i]);
            }
        }
    }
}

/// A node serves one of some handlers exactly where it reports one of them.
proof fn lemma_serves(required: Seq<Seq<char>>, node: objects::Node)
    requires
        reports_handlers(node),
    ensures
        nodes::served_by(node) is Some,
        nodes::serves_any(required, nodes::served_by(node)->0) <==> exists|i: int|
            0 <= i < required.len() && reports(node, #[trigger] required[i]),
{
    let entries = node.status->0.runtime_handlers->0@;
    let served = nodes::names_among(entries);
    assert forall|i: int| 0 <= i < required.len() implies (served.contains(#[trigger] required[i])
        <==> reports(node, required[i])) by {
        lemma_names_among(entries, required[i]);
    }
    if nodes::serves_any(required, served) {
        let i = choose|i: int| 0 <= i < required.len() && served.contains(#[trigger] required[i]);
        assert(reports(node, required[i]));
    }
}

/// Whether a node carries a label at a value.
pub open spec fn carries(node: objects::Node, key: Seq<char>, value: Seq<char>) -> bool {
    node.labels matches Some(map) && map@.contains_key(key) && map@[key] == value
}

/// A node is left alone by the next run exactly where a finished run shows on it: each of
/// this instance's labels is at the value that a run finishes with, that value is not the
/// pending one, and, where handlers are required, the node reports one of them, whichever
/// others it does not, or does not report handlers at all.
pub proof fn law_a_node_that_shows_a_finished_run_is_satisfied(
    labelling: NodeLabelling,
    finished: Seq<char>,
    required: Seq<Seq<char>>,
    node: objects::Node,
)
    ensures
        nodes::is_satisfied_node(Some(labelling), Some(finished), required, node) <==> {
            &&& finished != labelling.pending_value@
            &&& carries(node, labelling.key@, finished)
            &&& labelling.instance matches Some(marker) ==> carries(
                node,
                marker.key_text(),
                finished,
            )
            &&& {
                ||| required.len() == 0
                ||| !reports_handlers(node)
                ||| exists|i: int| 0 <= i < required.len() && reports(node, #[trigger] required[i])
            }
        },
{
    let keys = labelling.key_list();
    assert(keys[0] == labelling.key@);
    assert(labelling.instance matches Some(marker) ==> keys.len() == 2 && keys[1]
        == marker.key_text());
    assert(labelling.instance is None ==> keys.len() == 1);
    assert forall|key: Seq<char>| #[trigger] carries(node, key, finished) <==> labels::lookup(
        labels::or_empty(node.labels),
        key,
    ) == Some(finished) by {}
    if nodes::is_satisfied_node(Some(labelling), Some(finished), required, node) {
        assert(labels::lookup(labels::or_empty(node.labels), keys[0]) == Some(finished));
        if labelling.instance is Some {
            assert(labels::lookup(labels::or_empty(node.labels), keys[1]) == Some(finished));
        }
    }
    if reports_handlers(node) {
        lemma_serves(required, node);
    }
}

/// Without labels to read, or a value that a run finishes with, nothing is satisfied.
pub proof fn law_nothing_shows_without_labels(
    labelling: Option<NodeLabelling>,
    finished: Option<Seq<char>>,
    required: Seq<Seq<char>>,
    node: objects::Node,
)
    requires
        labelling is None || finished is None,
    ensures
        !nodes::is_satisfied_node(labelling, finished, required, node),
{
}

/// A node that the check after its Job accepts, and that carries what the run then writes,
/// is left alone by the next run.
pub proof fn law_an_accepted_node_is_satisfied(
    name: Seq<char>,
    labelling: NodeLabelling,
    finished: Seq<char>,
    required: Seq<Seq<char>>,
    elapsed_secs: u64,
    node: objects::Node,
    step: WaitStep,
)
    requires
        waits::handlers_give(name, required, elapsed_secs, Ok(node), step),
        step is Done,
        finished != labelling.pending_value@,
        carries(node, labelling.key@, finished),
        labelling.instance matches Some(marker) ==> carries(node, marker.key_text(), finished),
    ensures
        nodes::is_satisfied_node(Some(labelling), Some(finished), required, node),
{
    law_a_node_that_shows_a_finished_run_is_satisfied(labelling, finished, required, node);
    if required.len() > 0 && reports_handlers(node) {
        lemma_serves(required, node);
    }
}

/// The check after a Job accepts a node as soon as it reports one of the required handlers,
/// or where it does not report handlers at all; it fails one that reports none of them only
/// once the wait is over.
pub proof fn law_one_reported_handler_is_enough(
    name: Seq<char>,
    required: Seq<Seq<char>>,
    elapsed_secs: u64,
    node: objects::Node,
    step: WaitStep,
)
    requires
        waits::handlers_give(name, required, elapsed_secs, Ok(node), step),
        required.len() > 0,
    ensures
        step is Done <==> !reports_handlers(node) || exists|i: int|
            0 <= i < required.len() && reports(node, #[trigger] required[i]),
        step is Fail ==> elapsed_secs >= 120,
        step is Again ==> elapsed_secs < 120,
{
    if reports_handlers(node) {
        lemma_serves(required, node);
    }
}

/// What becomes of the shared label is decided by the marks of the other instances that the
/// node carries: while one of them is at a value of its own, the label stays; while all of
/// them are pending, it goes down with them; without any, it goes.
pub proof fn law_other_marks_decide_the_shared_label(
    on_node: Map<Seq<char>, Seq<char>>,
    labelling: NodeLabelling,
    marker: InstanceMarker,
)
    requires
        labelling.instance == Some(marker),
    ensures
        ({
            let other = |key: Seq<char>|
                on_node.contains_key(key) && key != marker.key_text() && key.len()
                    > marker.prefix_text().len() && key.take(marker.prefix_text().len() as int)
                    == marker.prefix_text() && key[marker.prefix_text().len() as int] == '/';
            let serving = exists|key: Seq<char>|
                #[trigger] other(key) && on_node[key] != labelling.pending_value@;
            let any = exists|key: Seq<char>| #[trigger] other(key);
            &&& nodes::shared_after(on_node, labelling) == SharedLabel::Keep <==> serving
            &&& nodes::shared_after(on_node, labelling) == SharedLabel::Demote <==> any && !serving
            &&& nodes::shared_after(on_node, labelling) == SharedLabel::Remove <==> !any
        }),
{
    let other = |key: Seq<char>|
        on_node.contains_key(key) && key != marker.key_text() && key.len()
            > marker.prefix_text().len() && key.take(marker.prefix_text().len() as int)
            == marker.prefix_text() && key[marker.prefix_text().len() as int] == '/';
    assert forall|key: Seq<char>| #[trigger] other(key) <==> nodes::is_other_mark(
        on_node,
        marker,
        key,
    ) by {
        let p = marker.prefix_text();
        let n = p.len() as int;
        let whole = p.push('/');
        if nodes::stands_below(p, key) {
            assert(key.subrange(0, whole.len() as int) == whole);
            assert(key.subrange(0, whole.len() as int)[n] == '/');
            assert(key.take(n) =~= p) by {
                assert forall|i: int| 0 <= i < n implies key[i] == p[i] by {
                    assert(key.subrange(0, whole.len() as int)[i] == whole[i]);
                }
            }
        }
        if key.len() > n && key.take(n) == p && key[n] == '/' {
            assert(key.subrange(0, whole.len() as int) =~= whole) by {
                assert forall|i: int| 0 <= i < n implies key[i] == p[i] by {
                    assert(key.take(n)[i] == p[i]);
                }
            }
        }
    }
    let serving = exists|key: Seq<char>|
        #[trigger] other(key) && on_node[key] != labelling.pending_value@;
    if nodes::other_serves(on_node, marker, labelling.pending_value@) {
        let key = choose|key: Seq<char>|
            #[trigger] nodes::is_other_mark(on_node, marker, key) && on_node[key]
                != labelling.pending_value@;
        assert(other(key));
    }
    if serving {
        let key = choose|key: Seq<char>|
            #[trigger] other(key) && on_node[key] != labelling.pending_value@;
        assert(nodes::is_other_mark(on_node, marker, key));
    }
    if nodes::other_holds(on_node, marker) {
        let key = choose|key: Seq<char>| #[trigger] nodes::is_other_mark(on_node, marker, key);
        assert(other(key));
    }
    if exists|key: Seq<char>| #[trigger] other(key) {
        let key = choose|key: Seq<char>| #[trigger] other(key);
        assert(nodes::is_other_mark(on_node, marker, key));
    }
}

/// A lone instance owns the shared label, so letting go of it takes it away.
pub proof fn law_a_lone_instance_owns_the_shared_label(
    on_node: Map<Seq<char>, Seq<char>>,
    labelling: NodeLabelling,
)
    requires
        labelling.instance is None,
    ensures
        nodes::shared_after(on_node, labelling) == SharedLabel::Remove,
{
}

/// Whether an operation of a JSON Patch does something with a value at a path.
pub open spec fn does(op: JsonModel, kind: Seq<char>, path: Seq<char>, value: JsonModel) -> bool {
    &&& op matches JsonModel::Object(fields)
    &&& fields.contains_key("op"@) && fields["op"@] == JsonModel::Text(kind)
    &&& fields.contains_key("path"@) && fields["path"@] == JsonModel::Text(path)
    &&& fields.contains_key("value"@) && fields["value"@] == value
}

/// Whether an operation of a JSON Patch removes what stands at a path.
pub open spec fn removes(op: JsonModel, path: Seq<char>) -> bool {
    &&& op matches JsonModel::Object(fields)
    &&& fields.contains_key("op"@) && fields["op"@] == JsonModel::Text("remove"@)
    &&& fields.contains_key("path"@) && fields["path"@] == JsonModel::Text(path)
}

/// The names of the members of an operation differ.
proof fn lemma_members_differ()
    ensures
        "op"@ != "path"@,
        "op"@ != "value"@,
        "path"@ != "value"@,
{
    reveal_strlit("op");
    reveal_strlit("path");
    reveal_strlit("value");
    assert("op"@.len() != "path"@.len());
    assert("op"@.len() != "value"@.len());
    assert("path"@.len() != "value"@.len());
}

/// Every patch is refused by the apiserver on another machine, and on one that changed since
/// it was read: its first operations test the UID and the version.
pub proof fn law_guards_test_the_machine_and_its_version(uid: Seq<char>, version: Seq<char>)
    ensures
        writes::guards(uid, version).len() == 2,
        does(writes::guards(uid, version)[0], "test"@, "/metadata/uid"@, JsonModel::Text(uid)),
        does(
            writes::guards(uid, version)[1],
            "test"@,
            "/metadata/resourceVersion"@,
            JsonModel::Text(version),
        ),
{
    lemma_members_differ();
}

/// A label patch makes its writes in order, behind the tests: it sets a label to its value,
/// or removes it, at the path of its key.
pub proof fn law_label_patches_make_their_writes(
    uid: Seq<char>,
    version: Seq<char>,
    list: Seq<(Seq<char>, Option<Seq<char>>)>,
    at: int,
)
    requires
        0 <= at < list.len(),
    ensures
        ({
            let patch = writes::label_patch_model(uid, version, list);
            let path = "/metadata/labels/"@ + json::escaped(list[at].0);
            &&& patch.len() == 2 + list.len()
            &&& list[at].1 matches Some(value) ==> does(
                patch[2 + at],
                "add"@,
                path,
                JsonModel::Text(value),
            )
            &&& list[at].1 is None ==> removes(patch[2 + at], path)
        }),
{
    lemma_members_differ();
    lemma_label_path(list[at].0);
    let patch = writes::label_patch_model(uid, version, list);
    assert(patch[2 + at] == writes::write_op("/metadata/labels"@, list[at]));
}

/// The path of a label.
proof fn lemma_label_path(key: Seq<char>)
    ensures
        writes::path_of("/metadata/labels"@, key) == "/metadata/labels/"@ + json::escaped(key),
        writes::path_of("/metadata/annotations"@, key) == "/metadata/annotations/"@ + json::escaped(
            key,
        ),
{
    reveal_strlit("/metadata/labels");
    reveal_strlit("/metadata/labels/");
    reveal_strlit("/metadata/annotations");
    reveal_strlit("/metadata/annotations/");
    reveal_strlit("/");
    assert("/metadata/labels"@ + "/"@ =~= "/metadata/labels/"@);
    assert("/metadata/annotations"@ + "/"@ =~= "/metadata/annotations/"@);
}

/// A claim sets every key that the node lacks to the pending value, and does nothing else
/// behind the tests: one key at a time on a node with labels, and all of them at once on one
/// without.
pub proof fn law_claims_set_the_missing_keys(
    uid: Seq<char>,
    version: Seq<char>,
    on_node: Map<Seq<char>, Seq<char>>,
    labelling: NodeLabelling,
    at: int,
)
    requires
        0 <= at < writes::missing_keys(on_node, labelling).len(),
    ensures
        ({
            let patch = writes::claim_model(uid, version, on_node, labelling);
            let missing = writes::missing_keys(on_node, labelling);
            let pending = JsonModel::Text(labelling.pending_value@);
            if on_node.dom() == Set::<Seq<char>>::empty() {
                &&& patch.len() == 3
                &&& exists|fields: Map<Seq<char>, JsonModel>| #[trigger]
                    does(patch[2], "add"@, "/metadata/labels"@, JsonModel::Object(fields))
                        && fields.contains_key(missing[at]) && fields[missing[at]] == pending
            } else {
                &&& patch.len() == 2 + missing.len()
                &&& does(
                    patch[2 + at],
                    "add"@,
                    "/metadata/labels/"@ + json::escaped(missing[at]),
                    pending,
                )
            }
        }),
{
    lemma_members_differ();
    let patch = writes::claim_model(uid, version, on_node, labelling);
    let missing = writes::missing_keys(on_node, labelling);
    let pending = labelling.pending_value@;
    if on_node.dom() == Set::<Seq<char>>::empty() {
        assert(on_node =~= Map::<Seq<char>, Seq<char>>::empty());
        let fields = writes::each_at(missing, pending);
        lemma_each_at(missing, pending, at);
        assert(does(patch[2], "add"@, "/metadata/labels"@, JsonModel::Object(fields)));
    } else {
        lemma_label_path(missing[at]);
        assert(patch[2 + at] == writes::write_op(
            "/metadata/labels"@,
            (missing[at], Some(pending)),
        ));
    }
}

/// Every key of a list is set.
proof fn lemma_each_at(keys: Seq<Seq<char>>, value: Seq<char>, at: int)
    requires
        0 <= at < keys.len(),
    ensures
        writes::each_at(keys, value).contains_key(keys[at]),
        writes::each_at(keys, value)[keys[at]] == JsonModel::Text(value),
    decreases keys.len(),
{
    if at < keys.len() - 1 {
        lemma_each_at(keys.drop_last(), value, at);
    }
}

/// The keys that a claim sets are those of the instance that the node lacks.
pub proof fn law_a_claim_misses_no_key(
    on_node: Map<Seq<char>, Seq<char>>,
    labelling: NodeLabelling,
    key: Seq<char>,
)
    ensures
        writes::missing_keys(on_node, labelling).contains(key) <==> !on_node.contains_key(key) && (
        key == labelling.key@ || (labelling.instance matches Some(marker) && key
            == marker.key_text())),
{
    broadcast use vstd::seq_lib::group_filter_ensures;

    let keys = labelling.key_list();
    let absent = |k: Seq<char>| !on_node.contains_key(k);
    let missing = keys.filter(absent);
    assert(keys[0] == labelling.key@);
    if missing.contains(key) {
        keys.lemma_filter_contains_rev(absent, key);
        let k = choose|k: int| 0 <= k < missing.len() && missing[k] == key;
        assert(absent(missing[k]));
        let i = choose|i: int| 0 <= i < keys.len() && keys[i] == key;
        if i > 0 {
            assert(keys[1] == key);
        }
    }
    if !on_node.contains_key(key) {
        if key == labelling.key@ {
            assert(absent(keys[0]));
            assert(missing.contains(keys[0]));
        }
        if let Some(marker) = labelling.instance {
            if key == marker.key_text() {
                assert(keys[1] == key);
                assert(absent(keys[1]));
                assert(missing.contains(keys[1]));
            }
        }
    }
}

/// A demotion writes nothing but this instance's keys, each at the pending value.
pub proof fn law_a_demotion_writes_only_the_instances_keys(
    on_node: Map<Seq<char>, Seq<char>>,
    labelling: NodeLabelling,
    at: int,
)
    requires
        0 <= at < writes::demotions(on_node, labelling).len(),
    ensures
        writes::demotions(on_node, labelling)[at].1 == Some(labelling.pending_value@),
        writes::demotions(on_node, labelling)[at].0 == labelling.key@ || (
        labelling.instance matches Some(marker) && writes::demotions(on_node, labelling)[at].0
            == marker.key_text()),
{
}

/// A finished node carries the extra labels too, each at its value.
pub proof fn law_finished_nodes_carry_the_extra_labels(
    labelling: NodeLabelling,
    finished: Seq<char>,
    extra: Seq<(Seq<char>, Seq<char>)>,
    on_node: Map<Seq<char>, Seq<char>>,
    at: int,
)
    requires
        is_bookkeeping(labelling, extra),
        0 <= at < extra.len(),
        forall|i: int, j: int|
            0 <= i < j < extra.len() ==> (#[trigger] extra[i]).0 != (#[trigger] extra[j]).0,
    ensures
        labels::lookup(
            labels::all_written(on_node, writes::finished_labels(labelling, finished, extra)),
            extra[at].0,
        ) == Some(extra[at].1),
{
    let list = writes::finished_labels(labelling, finished, extra);
    let keys = labelling.key_list();
    let place = keys.len() + at;
    assert(list[place] == (extra[at].0, Some(extra[at].1)));
    assert forall|j: int| 0 <= j < list.len() && (#[trigger] list[j]).0
        == list[place].0 implies list[j].1 == list[place].1 by {
        if j < keys.len() {
            assert(list[j].0 == keys[j]);
            assert(keys.contains(keys[j]));
            assert(!keys.contains(extra[at].0));
        } else {
            let e = j - keys.len();
            assert(list[j] == (extra[e].0, Some(extra[e].1)));
            if e < at {
                assert(extra[e].0 != extra[at].0);
            } else if at < e {
                assert(extra[at].0 != extra[e].0);
            }
        }
    }
    lemma_named_key_is_written(on_node, list, place);
}

/// A recorded result can be read back: the state stands among the node's labels and the
/// rest among its annotations, each as it was to be written.
pub proof fn law_a_recorded_result_can_be_read_back(
    keys: ResultKeys,
    on_node: Map<Seq<char>, Seq<char>>,
    notes: Map<Seq<char>, Seq<char>>,
    list: Seq<(Seq<char>, Option<Seq<char>>)>,
    at: int,
)
    requires
        0 <= at < list.len(),
        forall|i: int, j: int|
            0 <= i < j < list.len() ==> (#[trigger] list[i]).0 != (#[trigger] list[j]).0,
    ensures
        ({
            let changes = writes::result_changes(keys, on_node, notes, list);
            if list[at].0 == keys.state@ {
                labels::lookup(labels_after_result(keys, on_node, changes), list[at].0) == list[at].1
            } else {
                labels::lookup(notes_after_result(keys, notes, changes), list[at].0) == list[at].1
            }
        }),
{
    law_a_recorded_result_is_left_alone(keys, on_node, notes, list);
    let changes = writes::result_changes(keys, on_node, notes, list);
    let after_labels = labels_after_result(keys, on_node, changes);
    let after_notes = notes_after_result(keys, notes, changes);
    let still = |w: (Seq<char>, Option<Seq<char>>)|
        w.1 != writes::result_present(keys, after_labels, after_notes, w.0);
    if still(list[at]) {
        broadcast use vstd::seq_lib::group_filter_ensures;

        let left = list.filter(still);
        assert(left.contains(list[at]));
        assert(left.len() > 0);
    }
}

/// A result patch makes each change where the result is read: the state among the labels,
/// the rest among the annotations, each of which is made first where the node has none.
pub proof fn law_result_patches_make_their_changes(
    uid: Seq<char>,
    version: Seq<char>,
    keys: ResultKeys,
    on_node: Map<Seq<char>, Seq<char>>,
    notes: Map<Seq<char>, Seq<char>>,
    list: Seq<(Seq<char>, Option<Seq<char>>)>,
    at: int,
)
    requires
        0 <= at < writes::result_changes(keys, on_node, notes, list).len(),
    ensures
        ({
            let patch = writes::result_model(uid, version, keys, on_node, notes, list);
            let changes = writes::result_changes(keys, on_node, notes, list);
            let none = Set::<Seq<char>>::empty();
            let made = (if on_node.dom() == none {
                1int
            } else {
                0int
            }) + (if notes.dom() == none {
                1int
            } else {
                0int
            });
            let parent = if changes[at].0 == keys.state@ {
                "/metadata/labels/"@
            } else {
                "/metadata/annotations/"@
            };
            let path = parent + json::escaped(changes[at].0);
            &&& patch.len() == 2 + made + changes.len()
            &&& changes[at].1 matches Some(value) ==> does(
                patch[2 + made + at],
                "add"@,
                path,
                JsonModel::Text(value),
            )
            &&& changes[at].1 is None ==> removes(patch[2 + made + at], path)
        }),
{
    lemma_members_differ();
    let none = Map::<Seq<char>, Seq<char>>::empty();
    assert(on_node.dom() == Set::<Seq<char>>::empty() <==> on_node == none) by {
        if on_node.dom() == Set::<Seq<char>>::empty() {
            assert(on_node =~= none);
        }
        assert(none.dom() =~= Set::<Seq<char>>::empty());
    }
    assert(notes.dom() == Set::<Seq<char>>::empty() <==> notes == none) by {
        if notes.dom() == Set::<Seq<char>>::empty() {
            assert(notes =~= none);
        }
        assert(none.dom() =~= Set::<Seq<char>>::empty());
    }
    let changes = writes::result_changes(keys, on_node, notes, list);
    let patch = writes::result_model(uid, version, keys, on_node, notes, list);
    let made = writes::result_parents(on_node, notes).len();
    lemma_label_path(changes[at].0);
    assert(patch[2 + made + at] == writes::write_op(
        writes::result_parent(keys, changes[at].0),
        changes[at],
    ));
}

/// The taints that stay are written back whole: two of them that are written alike are the
/// same taint.
pub proof fn law_taints_are_written_back_whole(one: objects::TaintModel, other: objects::TaintModel)
    ensures
        writes::taint_json(one) == writes::taint_json(other) ==> one == other,
        writes::taint_json(one) matches JsonModel::Object(fields) && fields["key"@]
            == JsonModel::Text(one.key) && fields["effect"@] == JsonModel::Text(one.effect) && (
        one.value matches Some(value) ==> fields["value"@] == JsonModel::Text(value)) && (
        one.time_added matches Some(time) ==> fields["timeAdded"@] == JsonModel::Text(time)) && (
        fields.contains_key("value"@) <==> one.value is Some) && (fields.contains_key("timeAdded"@)
            <==> one.time_added is Some),
{
    reveal_strlit("key");
    reveal_strlit("effect");
    reveal_strlit("value");
    reveal_strlit("timeAdded");
    assert("key"@.len() == 3);
    assert("effect"@.len() == 6);
    assert("value"@.len() == 5);
    assert("timeAdded"@.len() == 9);
    let a = writes::taint_json(one)->Object_0;
    let b = writes::taint_json(other)->Object_0;
    if writes::taint_json(one) == writes::taint_json(other) {
        assert(a == b);
        assert(a["key"@] == b["key"@]);
        assert(a["effect"@] == b["effect"@]);
        assert(a.contains_key("value"@) == b.contains_key("value"@));
        assert(a["value"@] == b["value"@]);
        assert(a.contains_key("timeAdded"@) == b.contains_key("timeAdded"@));
        assert(a["timeAdded"@] == b["timeAdded"@]);
    }
}

/// A taint patch replaces the node's taints by those that stay, in order, and does nothing
/// else behind the tests.
pub proof fn law_taint_patches_write_what_stays(
    uid: Seq<char>,
    version: Seq<char>,
    retained: Seq<objects::TaintModel>,
    at: int,
)
    requires
        0 <= at < retained.len(),
    ensures
        ({
            let patch = writes::taint_patch_model(uid, version, retained);
            &&& patch.len() == 3
            &&& exists|list: Seq<JsonModel>| #[trigger]
                does(patch[2], "replace"@, "/spec/taints"@, JsonModel::List(list)) && list.len()
                    == retained.len() && list[at] == writes::taint_json(retained[at])
        }),
{
    lemma_members_differ();
    let patch = writes::taint_patch_model(uid, version, retained);
    let list = retained.map_values(|t: objects::TaintModel| writes::taint_json(t));
    assert(does(patch[2], "replace"@, "/spec/taints"@, JsonModel::List(list)));
}

/// Whether a node is the machine that it was selected as.
pub open spec fn is_machine(node: objects::Node, uid: Seq<char>) -> bool {
    node.uid is Some && node.uid->0@ == uid
}

/// Lifting taints writes exactly where a matcher asks for a taint of the node, and then writes
/// the others back.
pub proof fn law_lifting_writes_where_a_matcher_asks(
    matchers: Vec<String>,
    uid: Seq<char>,
    node: objects::Node,
)
    requires
        is_machine(node, uid),
    ensures
        ({
            let taints = objects::taint_models(node.taints);
            let asked = exists|i: int, k: int|
                0 <= i < matchers@.len() && 0 <= k < taints.len() && asks_for(
                    #[trigger] matchers@[i]@,
                    (#[trigger] taints[k]).key,
                    taints[k].effect,
                );
            let change = guarded::change_for(Intent::LiftTaints { matchers }, uid, node);
            &&& change is Nothing <==> !asked
            &&& change matches Change::Patch(ops) ==> ops == writes::taint_patch_model(
                uid,
                guarded::version_of(node),
                writes::retained_taints(taints, text::texts(matchers@)),
            )
        }),
{
    let taints = objects::taint_models(node.taints);
    let list = text::texts(matchers@);
    let goes = |t: objects::TaintModel| writes::is_lifted(list, t);
    let lifted = taints.filter(goes);
    broadcast use vstd::seq_lib::group_filter_ensures;

    assert(writes::removed_taints(taints, list).len() == lifted.len());
    if lifted.len() > 0 {
        assert(lifted.contains(lifted[0]));
        taints.lemma_filter_contains_rev(goes, lifted[0]);
        let k = choose|k: int| 0 <= k < taints.len() && taints[k] == lifted[0];
        assert(goes(lifted[0]));
        let i = choose|i: int|
            0 <= i < list.len() && writes::matches_taint(
                #[trigger] list[i],
                lifted[0].key,
                lifted[0].effect,
            );
        law_matchers_are_for_what_they_ask(list[i], taints[k].key, taints[k].effect);
        assert(asks_for(matchers@[i]@, taints[k].key, taints[k].effect));
    }
    if exists|i: int, k: int|
        0 <= i < matchers@.len() && 0 <= k < taints.len() && asks_for(
            #[trigger] matchers@[i]@,
            (#[trigger] taints[k]).key,
            taints[k].effect,
        ) {
        let (i, k) = choose|i: int, k: int|
            0 <= i < matchers@.len() && 0 <= k < taints.len() && asks_for(
                #[trigger] matchers@[i]@,
                (#[trigger] taints[k]).key,
                taints[k].effect,
            );
        law_matchers_are_for_what_they_ask(list[i], taints[k].key, taints[k].effect);
        assert(writes::matches_taint(list[i], taints[k].key, taints[k].effect));
        assert(goes(taints[k]));
        assert(lifted.contains(taints[k]));
    }
}

/// Advertising a node sets its shared label to the value that the run finishes with, and its
/// mark too, where the instance has one.
pub proof fn law_advertising_sets_the_labels(
    labelling: NodeLabelling,
    value: String,
    extra: Vec<(String, String)>,
    uid: Seq<char>,
    node: objects::Node,
)
    requires
        is_machine(node, uid),
    ensures
        guarded::change_for(
            Intent::Finish { labelling, value, extra },
            uid,
            node,
        ) matches Change::Patch(ops) && ops.len() == 2 + labelling.key_list().len() + extra@.len()
            && does(
            ops[2],
            "add"@,
            "/metadata/labels/"@ + json::escaped(labelling.key@),
            JsonModel::Text(value@),
        ) && (labelling.instance matches Some(marker) ==> does(
            ops[3],
            "add"@,
            "/metadata/labels/"@ + json::escaped(marker.key_text()),
            JsonModel::Text(value@),
        )),
{
    let list = writes::finished_labels(labelling, value@, labels::pairs(extra@));
    let version = guarded::version_of(node);
    assert(list[0] == (labelling.key@, Some(value@)));
    law_label_patches_make_their_writes(uid, version, list, 0);
    if let Some(marker) = labelling.instance {
        assert(list[1] == (marker.key_text(), Some(value@)));
        law_label_patches_make_their_writes(uid, version, list, 1);
    }
}

/// Claiming a node writes exactly where the node lacks one of the instance's keys.
pub proof fn law_claiming_writes_where_a_key_is_missing(
    labelling: NodeLabelling,
    uid: Seq<char>,
    node: objects::Node,
)
    requires
        is_machine(node, uid),
    ensures
        ({
            let has = |key: Seq<char>|
                node.labels is Some && node.labels->0@.contains_key(key);
            let change = guarded::change_for(Intent::Claim { labelling }, uid, node);
            &&& change is Nothing <==> has(labelling.key@) && (
            labelling.instance matches Some(marker) ==> has(marker.key_text()))
            &&& change matches Change::Patch(ops) ==> ops == writes::claim_model(
                uid,
                guarded::version_of(node),
                labels::or_empty(node.labels),
                labelling,
            )
        }),
{
    let on_node = labels::or_empty(node.labels);
    let missing = writes::missing_keys(on_node, labelling);
    law_a_claim_misses_no_key(on_node, labelling, labelling.key@);
    if let Some(marker) = labelling.instance {
        law_a_claim_misses_no_key(on_node, labelling, marker.key_text());
    }
    if missing.len() > 0 {
        assert(missing.contains(missing[0]));
        law_a_claim_misses_no_key(on_node, labelling, missing[0]);
    }
}

/// Taking a node out of service and letting go of it write what they are there for, and
/// nothing where there is nothing to write.
pub proof fn law_letting_go_writes_what_it_takes(
    labelling: NodeLabelling,
    extra: Vec<(String, String)>,
    uid: Seq<char>,
    node: objects::Node,
)
    requires
        is_machine(node, uid),
    ensures
        ({
            let on_node = labels::or_empty(node.labels);
            let down = writes::demotions(on_node, labelling);
            let off = writes::releases(on_node, labelling, labels::pairs(extra@));
            let demote = guarded::change_for(Intent::Demote { labelling }, uid, node);
            let release = guarded::change_for(Intent::Release { labelling, extra }, uid, node);
            &&& demote is Nothing <==> down.len() == 0
            &&& demote matches Change::Patch(ops) ==> ops == writes::label_patch_model(
                uid,
                guarded::version_of(node),
                down,
            )
            &&& release is Nothing <==> off.len() == 0
            &&& release matches Change::Patch(ops) ==> ops == writes::label_patch_model(
                uid,
                guarded::version_of(node),
                off,
            )
        }),
{
}

/// Recording a result writes exactly where the node does not say it already.
pub proof fn law_recording_writes_what_is_new(
    keys: ResultKeys,
    updates: Vec<(String, Option<String>)>,
    uid: Seq<char>,
    node: objects::Node,
    at: int,
)
    requires
        is_machine(node, uid),
        0 <= at < updates@.len(),
        guarded::change_for(Intent::Record { keys, updates }, uid, node) is Nothing,
    ensures
        ({
            let map = if updates@[at].0@ == keys.state@ {
                labels::or_empty(node.labels)
            } else {
                labels::or_empty(node.annotations)
            };
            updates@[at].1 matches Some(value) ==> map.contains_key(updates@[at].0@)
                && map[updates@[at].0@] == value@
        }),
        updates@[at].1 is None ==> !(if updates@[at].0@ == keys.state@ {
            labels::or_empty(node.labels)
        } else {
            labels::or_empty(node.annotations)
        }).contains_key(updates@[at].0@),
{
    broadcast use vstd::seq_lib::group_filter_ensures;

    let list = labels::writes(updates@);
    let on_node = labels::or_empty(node.labels);
    let notes = labels::or_empty(node.annotations);
    let differs = |w: (Seq<char>, Option<Seq<char>>)|
        w.1 != writes::result_present(keys, on_node, notes, w.0);
    let changes = list.filter(differs);
    assert(changes.len() == 0);
    if differs(list[at]) {
        assert(changes.contains(list[at]));
    }
}

} // verus!
