//! Sorting by name, one entry per name.

use crate::text;
use vstd::prelude::*;

verus! {

/// No text sorts before itself.
pub proof fn law_order_is_irreflexive(a: Seq<char>)
    ensures
        !text::before(a, a),
    decreases a.len(),
{
    if a.len() > 0 {
        law_order_is_irreflexive(a.drop_first());
    }
}

/// The order is transitive.
pub proof fn law_order_is_transitive(a: Seq<char>, b: Seq<char>, c: Seq<char>)
    requires
        text::before(a, b),
        text::before(b, c),
    ensures
        text::before(a, c),
    decreases a.len(),
{
    if a.len() > 0 && b.len() > 0 && c.len() > 0 && a[0] == b[0] && b[0] == c[0] {
        law_order_is_transitive(a.drop_first(), b.drop_first(), c.drop_first());
    }
}

/// Of two different texts, one sorts before the other.
pub proof fn law_order_is_total(a: Seq<char>, b: Seq<char>)
    ensures
        a == b || text::before(a, b) || text::before(b, a),
    decreases a.len(),
{
    if a.len() == 0 || b.len() == 0 {
        if a.len() == 0 && b.len() == 0 {
            assert(a =~= b);
        }
    } else if a[0] == b[0] {
        law_order_is_total(a.drop_first(), b.drop_first());
        if a.drop_first() == b.drop_first() {
            assert(a =~= seq![a[0]] + a.drop_first());
            assert(b =~= seq![b[0]] + b.drop_first());
        }
    }
}

/// `picked` holds, for every text of `keys`, the position where it stands first,
/// in the order of the texts.
pub open spec fn picks_firsts(keys: Seq<Seq<char>>, picked: Seq<int>) -> bool {
    &&& forall|i: int| 0 <= i < picked.len() ==> 0 <= #[trigger] picked[i] < keys.len()
    &&& forall|i: int, j: int|
        0 <= i < j < picked.len() ==> text::before(keys[#[trigger] picked[i]], keys[#[trigger] picked[j]])
    &&& forall|i: int, j: int|
        0 <= i < picked.len() && 0 <= j < #[trigger] picked[i] ==> #[trigger] keys[j]
            != keys[picked[i]]
    &&& forall|j: int| 0 <= j < keys.len() ==> #[trigger] has_pick(keys, picked, j)
}

/// One of the picked positions holds the text that stands at `j`.
pub open spec fn has_pick(keys: Seq<Seq<char>>, picked: Seq<int>, j: int) -> bool {
    exists|i: int| 0 <= i < picked.len() && keys[#[trigger] picked[i]] == keys[j]
}

/// The positions of the first of each text, in the order of the texts.
pub open spec fn ordered_firsts(keys: Seq<Seq<char>>) -> Seq<int> {
    choose|picked: Seq<int>| picks_firsts(keys, picked)
}

/// Two lists that pick the first of each text in order agree on every shared
/// position.
proof fn lemma_picks_agree(keys: Seq<Seq<char>>, p: Seq<int>, q: Seq<int>, n: int)
    requires
        picks_firsts(keys, p),
        picks_firsts(keys, q),
        0 <= n <= p.len(),
    ensures
        n <= q.len(),
        forall|i: int| 0 <= i < n ==> p[i] == q[i],
    decreases n,
{
    if n > 0 {
        lemma_picks_agree(keys, p, q, n - 1);
        let m = n - 1;
        let a = keys[p[m]];
        assert(has_pick(keys, q, p[m]));
        let at = choose|i: int| 0 <= i < q.len() && keys[#[trigger] q[i]] == keys[p[m]];
        assert(0 <= at < q.len() && keys[q[at]] == a);
        law_order_is_irreflexive(a);
        if at < m {
            assert(p[at] == q[at]);
            assert(text::before(keys[p[at]], keys[p[m]]));
        }
        assert(m < q.len());
        let b = keys[q[m]];
        assert(has_pick(keys, p, q[m]));
        let back = choose|i: int| 0 <= i < p.len() && keys[#[trigger] p[i]] == keys[q[m]];
        assert(0 <= back < p.len() && keys[p[back]] == b);
        law_order_is_irreflexive(b);
        if back < m {
            assert(p[back] == q[back]);
            assert(text::before(keys[q[back]], keys[q[m]]));
        }
        if a != b {
            assert(at > m);
            assert(text::before(keys[q[m]], keys[q[at]]));
            assert(back > m);
            assert(text::before(keys[p[m]], keys[p[back]]));
            law_order_is_transitive(a, b, a);
        }
        assert(a == b);
        if p[m] < q[m] {
            assert(keys[p[m]] != keys[q[m]]);
        }
        if q[m] < p[m] {
            assert(keys[q[m]] != keys[p[m]]);
        }
    }
}

/// There is one list only that picks the first of each text in order.
pub proof fn law_picks_are_unique(keys: Seq<Seq<char>>, p: Seq<int>, q: Seq<int>)
    requires
        picks_firsts(keys, p),
        picks_firsts(keys, q),
    ensures
        p == q,
{
    lemma_picks_agree(keys, p, q, p.len() as int);
    lemma_picks_agree(keys, q, p, q.len() as int);
    assert(p =~= q);
}

/// Positions as integers.
pub open spec fn positions(list: Seq<usize>) -> Seq<int> {
    list.map_values(|i: usize| i as int)
}

/// The positions of the first of each text, in the order of the texts.
pub fn firsts_in_order(keys: &Vec<String>) -> (r: Vec<usize>)
    ensures
        positions(r@) == ordered_firsts(text::texts(keys@)),
        picks_firsts(text::texts(keys@), positions(r@)),
{
    let mut r: Vec<usize> = Vec::new();
    let mut n: usize = 0;
    let ghost all = text::texts(keys@);
    assert(picks_firsts(all.take(0), positions(r@)));
    while n < keys.len()
        invariant
            n <= keys@.len(),
            all == text::texts(keys@),
            picks_firsts(all.take(n as int), positions(r@)),
        decreases keys@.len() - n,
    {
        let ghost seen = all.take(n as int);
        let ghost next = all.take(n + 1);
        let ghost old_r = positions(r@);
        let key: &str = keys[n].as_str();
        proof {
            assert(next.take(n as int) =~= seen);
            assert forall|i: int| 0 <= i < r@.len() implies (#[trigger] r@[i]) < n by {
                assert(positions(r@)[i] == r@[i]);
            }
        }
        let mut at: usize = 0;
        while at < r.len() && text::sorts_before(keys[r[at]].as_str(), key)
            invariant
                at <= r@.len(),
                n < keys@.len(),
                all == text::texts(keys@),
                seen == all.take(n as int),
                picks_firsts(seen, positions(r@)),
                key@ == all[n as int],
                forall|i: int| 0 <= i < r@.len() ==> (#[trigger] r@[i]) < n,
                forall|i: int| 0 <= i < at ==> text::before(all[#[trigger] r@[i] as int], key@),
            decreases r@.len() - at,
        {
            at = at + 1;
        }
        if at < r.len() && text::same(keys[r[at]].as_str(), key) {
            proof {
                assert(positions(r@)[at as int] == r@[at as int]);
                lemma_picks_known(seen, next, old_r, at as int);
            }
        } else {
            r.insert(at, n);
            proof {
                assert(positions(r@) =~= old_r.insert(at as int, n as int));
                if at < old_r.len() {
                    law_order_is_total(all[old_r[at as int]], key@);
                }
                lemma_picks_new(seen, next, old_r, at as int);
            }
        }
        n = n + 1;
    }
    proof {
        assert(all.take(all.len() as int) =~= all);
        law_picks_are_unique(all, positions(r@), ordered_firsts(all));
    }
    r
}

/// A text already picked adds nothing.
proof fn lemma_picks_known(
    seen: Seq<Seq<char>>,
    next: Seq<Seq<char>>,
    picked: Seq<int>,
    at: int,
)
    requires
        picks_firsts(seen, picked),
        next.len() == seen.len() + 1,
        next.take(seen.len() as int) == seen,
        0 <= at < picked.len(),
        next[picked[at]] == next.last(),
    ensures
        picks_firsts(next, picked),
{
    let n = seen.len() as int;
    assert forall|j: int| 0 <= j < n implies #[trigger] next[j] == seen[j] by {
        assert(next.take(n)[j] == next[j]);
    }
    assert forall|i: int, j: int| 0 <= i < j < picked.len() implies text::before(
        next[#[trigger] picked[i]],
        next[#[trigger] picked[j]],
    ) by {
        assert(text::before(seen[picked[i]], seen[picked[j]]));
    }
    assert forall|i: int, j: int|
        0 <= i < picked.len() && 0 <= j < #[trigger] picked[i] implies #[trigger] next[j]
        != next[picked[i]] by {
        assert(seen[j] != seen[picked[i]]);
    }
    assert forall|j: int| 0 <= j < next.len() implies #[trigger] has_pick(next, picked, j) by {
        if j < n {
            assert(has_pick(seen, picked, j));
            let i = choose|i: int| 0 <= i < picked.len() && seen[#[trigger] picked[i]] == seen[j];
            assert(seen[j] == next[j]);
            assert(next[picked[i]] == next[j]);
        } else {
            assert(next[picked[at]] == next[j]);
        }
    }
}

/// A new text goes before the first picked one that sorts after it.
proof fn lemma_picks_new(seen: Seq<Seq<char>>, next: Seq<Seq<char>>, picked: Seq<int>, at: int)
    requires
        picks_firsts(seen, picked),
        next.len() == seen.len() + 1,
        next.take(seen.len() as int) == seen,
        0 <= at <= picked.len(),
        forall|i: int| 0 <= i < at ==> text::before(next[#[trigger] picked[i]], next.last()),
        at < picked.len() ==> text::before(next.last(), next[picked[at]]),
    ensures
        picks_firsts(next, picked.insert(at, seen.len() as int)),
{
    let n = seen.len() as int;
    let key = next.last();
    let out = picked.insert(at, n);
    assert forall|j: int| 0 <= j < n implies #[trigger] next[j] == seen[j] by {
        assert(next.take(n)[j] == next[j]);
    }
    assert forall|i: int| at <= i < picked.len() implies text::before(key, next[#[trigger] picked[i]]) by {
        if i > at {
            assert(text::before(seen[picked[at]], seen[picked[i]]));
            law_order_is_transitive(key, next[picked[at]], next[picked[i]]);
        }
    }
    law_order_is_irreflexive(key);
    assert forall|i: int, j: int| 0 <= i < j < out.len() implies text::before(
        next[#[trigger] out[i]],
        next[#[trigger] out[j]],
    ) by {
        let a = if i < at { i } else { i - 1 };
        let b = if j < at { j } else { j - 1 };
        if i != at && j != at {
            assert(out[i] == picked[a]);
            assert(out[j] == picked[b]);
            assert(text::before(seen[picked[a]], seen[picked[b]]));
        } else if i == at {
            assert(out[j] == picked[b]);
        } else {
            assert(out[i] == picked[a]);
        }
    }
    assert forall|i: int, j: int|
        0 <= i < out.len() && 0 <= j < #[trigger] out[i] implies #[trigger] next[j]
        != next[out[i]] by {
        if i == at {
            assert(has_pick(seen, picked, j));
            let k = choose|k: int| 0 <= k < picked.len() && seen[#[trigger] picked[k]] == seen[j];
            assert(seen[j] == next[j]);
            assert(next[picked[k]] == next[j]);
        } else {
            let a = if i < at { i } else { i - 1 };
            assert(out[i] == picked[a]);
            assert(seen[j] != seen[picked[a]]);
        }
    }
    assert forall|j: int| 0 <= j < next.len() implies #[trigger] has_pick(next, out, j) by {
        if j < n {
            assert(has_pick(seen, picked, j));
            let k = choose|k: int| 0 <= k < picked.len() && seen[#[trigger] picked[k]] == seen[j];
            let i = if k < at { k } else { k + 1 };
            assert(out[i] == picked[k]);
            assert(seen[j] == next[j]);
            assert(next[out[i]] == next[j]);
        } else {
            assert(next[out[at]] == next[j]);
        }
    }
}

/// Where a new text goes among the picked ones.
proof fn lemma_place(keys: Seq<Seq<char>>, picked: Seq<int>, key: Seq<char>, from: int) -> (at: int)
    requires
        0 <= from <= picked.len(),
        forall|i: int| 0 <= i < from ==> text::before(keys[#[trigger] picked[i]], key),
    ensures
        from <= at <= picked.len(),
        forall|i: int| 0 <= i < at ==> text::before(keys[#[trigger] picked[i]], key),
        at < picked.len() ==> !text::before(keys[picked[at]], key),
    decreases picked.len() - from,
{
    if from < picked.len() && text::before(keys[picked[from]], key) {
        lemma_place(keys, picked, key, from + 1)
    } else {
        from
    }
}

/// Every list of texts has its firsts in order.
pub proof fn law_every_list_has_its_firsts(keys: Seq<Seq<char>>)
    ensures
        picks_firsts(keys, ordered_firsts(keys)),
    decreases keys.len(),
{
    if keys.len() == 0 {
        assert(picks_firsts(keys, Seq::empty()));
    } else {
        let seen = keys.drop_last();
        law_every_list_has_its_firsts(seen);
        let picked = ordered_firsts(seen);
        let at = lemma_place(keys, picked, keys.last(), 0);
        assert(keys.take(seen.len() as int) =~= seen);
        if at < picked.len() && keys[picked[at]] == keys.last() {
            lemma_picks_known(seen, keys, picked, at);
        } else {
            if at < picked.len() {
                law_order_is_total(keys[picked[at]], keys.last());
            }
            lemma_picks_new(seen, keys, picked, at);
        }
    }
}

} // verus!
