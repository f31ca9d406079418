//! A map from strings to strings that keeps the order in which its keys came.
//!
//! It holds the environment of a script, by variable, and a file mapping,
//! by source pattern. No key occurs twice: a key that comes again keeps its
//! place and takes the new value.

use vstd::prelude::*;

verus! {

/// A key with its value.
pub type Pair = (Seq<char>, Seq<char>);

/// Whether no key occurs twice in `pairs`.
pub open spec fn keys_distinct(pairs: Seq<Pair>) -> bool {
    forall|i: int, j: int| 0 <= i < j < pairs.len() ==> pairs[i].0 != pairs[j].0
}

/// The index of the first pair with `key`; `pairs.len()` if there is none.
pub open spec fn position(pairs: Seq<Pair>, key: Seq<char>) -> int
    decreases pairs.len(),
{
    if pairs.len() == 0 {
        0
    } else if pairs[0].0 == key {
        0
    } else {
        1 + position(pairs.skip(1), key)
    }
}

/// Whether a pair with `key` is in `pairs`.
pub open spec fn has_key(pairs: Seq<Pair>, key: Seq<char>) -> bool {
    position(pairs, key) < pairs.len()
}

/// `pairs` with `value` for `key`: in the place of the first pair with that
/// key, or at the end if there is none.
pub open spec fn spec_insert(pairs: Seq<Pair>, key: Seq<char>, value: Seq<char>) -> Seq<Pair> {
    if has_key(pairs, key) {
        pairs.update(position(pairs, key), (key, value))
    } else {
        pairs.push((key, value))
    }
}

/// `position` is the least index at which the key stands.
pub proof fn lemma_position(pairs: Seq<Pair>, key: Seq<char>)
    ensures
        0 <= position(pairs, key) <= pairs.len(),
        position(pairs, key) < pairs.len() ==> pairs[position(pairs, key)].0 == key,
        forall|i: int| 0 <= i < position(pairs, key) ==> (#[trigger] pairs[i]).0 != key,
    decreases pairs.len(),
{
    if pairs.len() > 0 && pairs[0].0 != key {
        let rest = pairs.skip(1);
        lemma_position(rest, key);
        assert forall|i: int| 0 <= i < position(pairs, key) implies (#[trigger] pairs[i]).0
            != key by {
            if i > 0 {
                assert(rest[i - 1] == pairs[i]);
            }
        }
    }
}

/// An index at which the key stands, with no such index before it, is the key's position.
pub proof fn lemma_position_is(pairs: Seq<Pair>, key: Seq<char>, at: int)
    requires
        0 <= at <= pairs.len(),
        at < pairs.len() ==> pairs[at].0 == key,
        forall|i: int| 0 <= i < at ==> (#[trigger] pairs[i]).0 != key,
    ensures
        position(pairs, key) == at,
{
    lemma_position(pairs, key);
}

/// Putting a value in keeps the keys distinct.
pub proof fn lemma_insert_keeps_distinct(pairs: Seq<Pair>, key: Seq<char>, value: Seq<char>)
    requires
        keys_distinct(pairs),
    ensures
        keys_distinct(spec_insert(pairs, key, value)),
        has_key(spec_insert(pairs, key, value), key),
        spec_insert(pairs, key, value)[position(spec_insert(pairs, key, value), key)].1 == value,
        spec_insert(pairs, key, value).len() == pairs.len() + (if has_key(pairs, key) {
            0int
        } else {
            1int
        }),
{
    lemma_position(pairs, key);
    let after = spec_insert(pairs, key, value);
    let at = position(pairs, key);
    lemma_position_is(after, key, at);
}

/// A map from strings to strings in the order in which its keys came.
#[derive(Debug, PartialEq, Eq)]
pub struct OrderedMap {
    entries: Vec<(String, String)>,
}

impl View for OrderedMap {
    type V = Seq<Pair>;

    closed spec fn view(&self) -> Seq<Pair> {
        Seq::new(self.entries@.len(), |i: int| (self.entries@[i].0@, self.entries@[i].1@))
    }
}

impl OrderedMap {
    #[verifier::type_invariant]
    spec fn inv(&self) -> bool {
        keys_distinct(self@)
    }

    /// The map without a key.
    pub fn new() -> (map: OrderedMap)
        ensures
            map@ == Seq::<Pair>::empty(),
    {
        let entries: Vec<(String, String)> = Vec::new();
        assert(Seq::new(entries@.len(), |i: int| (entries@[i].0@, entries@[i].1@))
            =~= Seq::<Pair>::empty());
        OrderedMap { entries }
    }

    /// The number of keys.
    pub fn len(&self) -> (n: usize)
        ensures
            n == self@.len(),
            keys_distinct(self@),
    {
        proof {
            use_type_invariant(self);
        }
        self.entries.len()
    }

    /// Whether the map is without a key.
    pub fn is_empty(&self) -> (b: bool)
        ensures
            b == (self@.len() == 0),
    {
        self.entries.len() == 0
    }

    /// The key at `index` in the order of the map.
    pub fn key(&self, index: usize) -> (key: Option<&String>)
        ensures
            index < self@.len() ==> key is Some && key->0@ == self@[index as int].0,
            index >= self@.len() ==> key is None,
    {
        if index < self.entries.len() {
            Some(&self.entries[index].0)
        } else {
            None
        }
    }

    /// The value at `index` in the order of the map.
    pub fn value(&self, index: usize) -> (value: Option<&String>)
        ensures
            index < self@.len() ==> value is Some && value->0@ == self@[index as int].1,
            index >= self@.len() ==> value is None,
    {
        if index < self.entries.len() {
            Some(&self.entries[index].1)
        } else {
            None
        }
    }

    /// The index of `key` in the order of the map; the number of keys if it has none such.
    fn find(&self, key: &String) -> (at: usize)
        ensures
            at == position(self@, key@),
            at <= self@.len(),
    {
        let mut at: usize = 0;
        let mut found = false;
        while at < self.entries.len() && !found
            invariant
                at <= self.entries@.len(),
                forall|i: int| 0 <= i < at ==> (#[trigger] self@[i]).0 != key@,
                found ==> at < self.entries@.len() && self@[at as int].0 == key@,
            decreases self.entries@.len() - at + (if found { 0int } else { 1int }),
        {
            if self.entries[at].0 == *key {
                found = true;
            } else {
                at += 1;
            }
        }
        proof {
            lemma_position_is(self@, key@, at as int);
        }
        at
    }

    /// The value of `key`, if the map has one.
    pub fn get(&self, key: &String) -> (value: Option<&String>)
        ensures
            has_key(self@, key@) ==> value is Some && value->0@ == self@[position(self@, key@)].1,
            !has_key(self@, key@) ==> value is None,
    {
        let at = self.find(key);
        if at < self.entries.len() {
            Some(&self.entries[at].1)
        } else {
            None
        }
    }

    /// The map with `value` for `key`. A key that the map has keeps its
    /// place; a new key comes last.
    pub fn insert(self, key: String, value: String) -> (map: OrderedMap)
        ensures
            map@ == spec_insert(self@, key@, value@),
            keys_distinct(map@),
    {
        proof {
            use_type_invariant(&self);
            lemma_insert_keeps_distinct(self@, key@, value@);
        }
        let at = self.find(&key);
        let ghost before = self@;
        let mut entries = self.entries;
        if at < entries.len() {
            entries.set(at, (key, value));
        } else {
            entries.push((key, value));
        }
        assert(Seq::new(entries@.len(), |i: int| (entries@[i].0@, entries@[i].1@)) =~= spec_insert(
            before,
            key@,
            value@,
        ));
        OrderedMap { entries }
    }
}

impl Clone for OrderedMap {
    fn clone(&self) -> (copy: OrderedMap)
        ensures
            copy@ == self@,
    {
        proof {
            use_type_invariant(self);
        }
        let mut entries: Vec<(String, String)> = Vec::new();
        let mut i: usize = 0;
        while i < self.entries.len()
            invariant
                i <= self.entries@.len(),
                entries@.len() == i,
                forall|j: int|
                    0 <= j < i ==> (#[trigger] entries@[j]).0@ == self.entries@[j].0@
                        && entries@[j].1@ == self.entries@[j].1@,
            decreases self.entries@.len() - i,
        {
            entries.push((self.entries[i].0.clone(), self.entries[i].1.clone()));
            i += 1;
        }
        assert(Seq::new(entries@.len(), |i: int| (entries@[i].0@, entries@[i].1@)) =~= self@);
        OrderedMap { entries }
    }
}

} // verus!
