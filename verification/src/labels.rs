//! The string maps that Kubernetes objects carry: labels and annotations.

use crate::text;
use vstd::prelude::*;

verus! {

/// A map from text to text, as `metadata.labels` and `metadata.annotations` are.
///
/// Every key stands once.
#[derive(Debug)]
pub struct StringMap {
    entries: Vec<(String, String)>,
}

/// Every key stands once.
spec fn distinct(entries: Seq<(String, String)>) -> bool {
    forall|i: int, j: int|
        0 <= i < j < entries.len() ==> (#[trigger] entries[i]).0@ != (#[trigger] entries[j]).0@
}

/// Some entry holds this key.
spec fn has_key(entries: Seq<(String, String)>, key: Seq<char>) -> bool {
    exists|i: int| 0 <= i < entries.len() && (#[trigger] entries[i]).0@ == key
}

/// The entry that holds this key.
spec fn place(entries: Seq<(String, String)>, key: Seq<char>) -> int {
    choose|i: int| 0 <= i < entries.len() && (#[trigger] entries[i]).0@ == key
}

/// The map that a list of entries stands for.
spec fn as_map(entries: Seq<(String, String)>) -> Map<Seq<char>, Seq<char>> {
    Map::new(|key: Seq<char>| has_key(entries, key), |key: Seq<char>| entries[place(entries, key)].1@)
}

/// What a map holds under a key.
pub open spec fn lookup(map: Map<Seq<char>, Seq<char>>, key: Seq<char>) -> Option<Seq<char>> {
    if map.contains_key(key) {
        Some(map[key])
    } else {
        None
    }
}

/// The map that may be missing; a missing one is empty.
pub open spec fn or_empty(map: Option<StringMap>) -> Map<Seq<char>, Seq<char>> {
    match map {
        Some(m) => m@,
        None => Map::empty(),
    }
}

impl View for StringMap {
    type V = Map<Seq<char>, Seq<char>>;

    closed spec fn view(&self) -> Map<Seq<char>, Seq<char>> {
        as_map(self.entries@)
    }
}

/// An entry is what the map holds under its key.
proof fn lemma_entry(entries: Seq<(String, String)>, i: int)
    requires
        distinct(entries),
        0 <= i < entries.len(),
    ensures
        as_map(entries).contains_key(entries[i].0@),
        as_map(entries)[entries[i].0@] == entries[i].1@,
{
    assert(has_key(entries, entries[i].0@));
    let p = place(entries, entries[i].0@);
    assert(0 <= p < entries.len() && entries[p].0@ == entries[i].0@);
    if p < i {
        assert(entries[p].0@ != entries[i].0@);
    } else if i < p {
        assert(entries[i].0@ != entries[p].0@);
    }
}

impl StringMap {
    #[verifier::type_invariant]
    spec fn wf(self) -> bool {
        distinct(self.entries@)
    }

    /// The empty map.
    pub fn new() -> (r: Self)
        ensures
            r@ == Map::<Seq<char>, Seq<char>>::empty(),
    {
        let r = StringMap { entries: Vec::new() };
        assert(r@ =~= Map::<Seq<char>, Seq<char>>::empty());
        r
    }

    /// Where the key stands, or the number of entries.
    fn find(entries: &Vec<(String, String)>, key: &str) -> (r: usize)
        ensures
            r <= entries@.len(),
            r < entries@.len() ==> entries@[r as int].0@ == key@,
            r == entries@.len() ==> !has_key(entries@, key@),
    {
        let mut i: usize = 0;
        while i < entries.len()
            invariant
                i <= entries@.len(),
                forall|j: int| 0 <= j < i ==> (#[trigger] entries@[j]).0@ != key@,
            decreases entries@.len() - i,
        {
            if text::same(entries[i].0.as_str(), key) {
                return i;
            }
            i = i + 1;
        }
        i
    }

    /// Sets the key to the value, whatever it held before.
    pub fn insert(&mut self, key: String, value: String)
        ensures
            final(self)@ == old(self)@.insert(key@, value@),
    {
        proof {
            use_type_invariant(&*self);
        }
        let ghost before = self.entries@;
        let ghost k = key@;
        let ghost v = value@;
        let mut entries: Vec<(String, String)> = Vec::new();
        std::mem::swap(&mut entries, &mut self.entries);
        let at: usize = Self::find(&entries, key.as_str());
        if at < entries.len() {
            entries.set(at, (key, value));
        } else {
            entries.push((key, value));
        }
        proof {
            let after = entries@;
            assert forall|i: int, j: int| 0 <= i < j < after.len() implies (
            #[trigger] after[i]).0@ != (#[trigger] after[j]).0@ by {
                if at < before.len() {
                    assert(after[i].0@ == before[i].0@);
                    assert(after[j].0@ == before[j].0@);
                } else if j < before.len() {
                    assert(after[i] == before[i]);
                    assert(after[j] == before[j]);
                } else {
                    assert(after[i] == before[i]);
                    assert(after[j].0@ == k);
                }
            }
            assert forall|x: Seq<char>| has_key(after, x) == (has_key(before, x) || x == k) by {
                if has_key(before, x) {
                    let i = place(before, x);
                    assert(after[i].0@ == x);
                }
                if x == k {
                    assert(after[at as int].0@ == x);
                }
                if has_key(after, x) && x != k {
                    let i = place(after, x);
                    assert(i != at);
                    assert(before[i].0@ == x);
                }
            }
            assert forall|x: Seq<char>| has_key(after, x) implies as_map(after)[x] == as_map(
                before,
            ).insert(k, v)[x] by {
                let i = place(after, x);
                lemma_entry(after, i);
                if x != k {
                    assert(i != at);
                    assert(before[i] == after[i]);
                    lemma_entry(before, i);
                } else {
                    lemma_entry(after, at as int);
                }
            }
            assert(as_map(after) =~= as_map(before).insert(k, v));
        }
        self.entries = entries;
    }

    /// What the map holds under a key.
    pub fn get(&self, key: &str) -> (r: Option<&str>)
        ensures
            text::opt_str(r) == lookup(self@, key@),
    {
        proof {
            use_type_invariant(self);
        }
        let at: usize = Self::find(&self.entries, key);
        if at < self.entries.len() {
            proof {
                lemma_entry(self.entries@, at as int);
            }
            Some(self.entries[at].1.as_str())
        } else {
            None
        }
    }

    /// Whether the map holds anything under a key.
    pub fn contains_key(&self, key: &str) -> (r: bool)
        ensures
            r == self@.contains_key(key@),
    {
        self.get(key).is_some()
    }

    /// Whether the map holds nothing.
    pub fn is_empty(&self) -> (r: bool)
        ensures
            r == (self@ == Map::<Seq<char>, Seq<char>>::empty()),
    {
        let r = self.entries.len() == 0;
        proof {
            if r {
                assert(self@ =~= Map::<Seq<char>, Seq<char>>::empty());
            } else {
                assert(has_key(self.entries@, self.entries@[0].0@));
                assert(self@.contains_key(self.entries@[0].0@));
            }
        }
        r
    }

    /// The keys, each once.
    pub fn keys(&self) -> (r: Vec<String>)
        ensures
            text::texts(r@).no_duplicates(),
            forall|key: Seq<char>|
                #[trigger] text::texts(r@).contains(key) <==> self@.contains_key(key),
    {
        proof {
            use_type_invariant(self);
        }
        let mut r: Vec<String> = Vec::new();
        let mut i: usize = 0;
        while i < self.entries.len()
            invariant
                i <= self.entries@.len(),
                r@.len() == i,
                forall|j: int| 0 <= j < i ==> (#[trigger] r@[j])@ == self.entries@[j].0@,
            decreases self.entries@.len() - i,
        {
            r.push(self.entries[i].0.clone());
            i = i + 1;
        }
        proof {
            let ks = text::texts(r@);
            assert forall|key: Seq<char>| #[trigger] ks.contains(key) <==> self@.contains_key(key) by {
                if ks.contains(key) {
                    let j = choose|j: int| 0 <= j < ks.len() && ks[j] == key;
                    assert(self.entries@[j].0@ == key);
                    assert(has_key(self.entries@, key));
                }
                if self@.contains_key(key) {
                    let j = place(self.entries@, key);
                    assert(ks[j] == key);
                }
            }
            assert forall|a: int, b: int| 0 <= a < ks.len() && 0 <= b < ks.len() && a
                != b implies ks[a] != ks[b] by {
                if a < b {
                    assert(self.entries@[a].0@ != self.entries@[b].0@);
                } else {
                    assert(self.entries@[b].0@ != self.entries@[a].0@);
                }
            }
        }
        r
    }
}

impl Clone for StringMap {
    fn clone(&self) -> (r: Self)
        ensures
            r@ == self@,
    {
        proof {
            use_type_invariant(self);
        }
        let mut entries: Vec<(String, String)> = Vec::new();
        let mut i: usize = 0;
        while i < self.entries.len()
            invariant
                i <= self.entries@.len(),
                entries@ == self.entries@.take(i as int),
            decreases self.entries@.len() - i,
        {
            entries.push((self.entries[i].0.clone(), self.entries[i].1.clone()));
            assert(self.entries@.take(i + 1) =~= self.entries@.take(i as int).push(
                self.entries@[i as int],
            ));
            i = i + 1;
        }
        assert(entries@ =~= self.entries@);
        StringMap { entries }
    }
}

/// A list of writes to a string map: a value to set under a key, or the key to
/// take away.
pub open spec fn writes(list: Seq<(String, Option<String>)>) -> Seq<(Seq<char>, Option<Seq<char>>)> {
    list.map_values(|w: (String, Option<String>)| (w.0@, text::opt_text(w.1)))
}

/// The views of a list of pairs.
pub open spec fn pairs(list: Seq<(String, String)>) -> Seq<(Seq<char>, Seq<char>)> {
    list.map_values(|p: (String, String)| (p.0@, p.1@))
}

/// What one write leaves of a map.
pub open spec fn written(
    map: Map<Seq<char>, Seq<char>>,
    write: (Seq<char>, Option<Seq<char>>),
) -> Map<Seq<char>, Seq<char>> {
    match write.1 {
        Some(value) => map.insert(write.0, value),
        None => map.remove(write.0),
    }
}

/// What a list of writes leaves of a map.
pub open spec fn all_written(
    map: Map<Seq<char>, Seq<char>>,
    list: Seq<(Seq<char>, Option<Seq<char>>)>,
) -> Map<Seq<char>, Seq<char>>
    decreases list.len(),
{
    if list.len() == 0 {
        map
    } else {
        written(all_written(map, list.drop_last()), list.last())
    }
}

/// A copy of a list of pairs.
pub fn copy_pairs(list: &Vec<(String, String)>) -> (r: Vec<(String, String)>)
    ensures
        r@ == list@,
{
    let mut r: Vec<(String, String)> = Vec::new();
    let mut i: usize = 0;
    while i < list.len()
        invariant
            i <= list@.len(),
            r@ == list@.take(i as int),
        decreases list@.len() - i,
    {
        r.push((list[i].0.clone(), list[i].1.clone()));
        assert(list@.take(i + 1) =~= list@.take(i as int).push(list@[i as int]));
        i = i + 1;
    }
    assert(list@.take(list@.len() as int) =~= list@);
    r
}

/// A map holds under a key what it maps the key to, and nothing where it lacks the key.
pub proof fn law_a_map_holds_what_it_maps(
    map: Map<Seq<char>, Seq<char>>,
    key: Seq<char>,
    value: Seq<char>,
)
    ensures
        lookup(map.insert(key, value), key) == Some(value),
        lookup(map.remove(key), key) is None,
        lookup(map, key) == Some(value) <==> map.contains_key(key) && map[key] == value,
        lookup(Map::empty(), key) is None,
{
}

/// A write sets its key or takes it away, and leaves every other as it was.
pub proof fn law_a_write_touches_its_key_only(
    map: Map<Seq<char>, Seq<char>>,
    key: Seq<char>,
    value: Option<Seq<char>>,
    other: Seq<char>,
)
    ensures
        lookup(written(map, (key, value)), key) == value,
        other != key ==> lookup(written(map, (key, value)), other) == lookup(map, other),
{
}

} // verus!
