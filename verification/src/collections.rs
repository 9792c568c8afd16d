//! Ordered maps and sets keyed by identifiers.
//!
//! Keys are kept in the byte order of their texts, so that walking a map visits
//! them in that order, and no key occurs twice.

use vstd::prelude::*;
use vstd::utf8::{encode_utf8, encode_utf8_decode_utf8};

use crate::identity::Identifier;

verus! {

/// Whether one byte string comes before another: the first byte that differs
/// decides, and a proper prefix comes first.
pub open spec fn bytes_before(a: Seq<u8>, b: Seq<u8>) -> bool
    decreases a.len(),
{
    if b.len() == 0 {
        false
    } else if a.len() == 0 {
        true
    } else if a[0] != b[0] {
        a[0] < b[0]
    } else {
        bytes_before(a.drop_first(), b.drop_first())
    }
}

/// Whether one text comes before another, by the bytes of their UTF-8 forms.
pub open spec fn text_before(a: Seq<char>, b: Seq<char>) -> bool {
    bytes_before(encode_utf8(a), encode_utf8(b))
}

proof fn lemma_bytes_irreflexive(a: Seq<u8>)
    ensures
        !bytes_before(a, a),
    decreases a.len(),
{
    if a.len() > 0 {
        lemma_bytes_irreflexive(a.drop_first());
    }
}

proof fn lemma_bytes_transitive(a: Seq<u8>, b: Seq<u8>, c: Seq<u8>)
    requires
        bytes_before(a, b),
        bytes_before(b, c),
    ensures
        bytes_before(a, c),
    decreases a.len(),
{
    if a.len() > 0 && b.len() > 0 && c.len() > 0 && a[0] == b[0] && b[0] == c[0] {
        lemma_bytes_transitive(a.drop_first(), b.drop_first(), c.drop_first());
    }
}

proof fn lemma_bytes_total(a: Seq<u8>, b: Seq<u8>)
    ensures
        bytes_before(a, b) || bytes_before(b, a) || a == b,
    decreases a.len(),
{
    if a.len() > 0 && b.len() > 0 && a[0] == b[0] {
        lemma_bytes_total(a.drop_first(), b.drop_first());
        if a.drop_first() == b.drop_first() {
            assert(a =~= seq![a[0]] + a.drop_first());
            assert(b =~= seq![b[0]] + b.drop_first());
        }
    } else if a.len() == 0 && b.len() == 0 {
        assert(a =~= b);
    }
}

/// The text order is a strict total order.
pub proof fn text_order_is_strict_and_total(a: Seq<char>, b: Seq<char>, c: Seq<char>)
    ensures
        !text_before(a, a),
        text_before(a, b) && text_before(b, c) ==> text_before(a, c),
        text_before(a, b) || text_before(b, a) || a == b,
{
    lemma_bytes_irreflexive(encode_utf8(a));
    if text_before(a, b) && text_before(b, c) {
        lemma_bytes_transitive(encode_utf8(a), encode_utf8(b), encode_utf8(c));
    }
    lemma_bytes_total(encode_utf8(a), encode_utf8(b));
    encode_utf8_decode_utf8(a);
    encode_utf8_decode_utf8(b);
}

/// Whether one text comes before another.
pub fn is_text_before(a: &str, b: &str) -> (result: bool)
    ensures
        result == text_before(a@, b@),
{
    let left = a.as_bytes();
    let right = b.as_bytes();
    let mut i: usize = 0;
    proof {
        assert(left@.subrange(0, left@.len() as int) =~= left@);
        assert(right@.subrange(0, right@.len() as int) =~= right@);
    }
    while i < left.len() && i < right.len()
        invariant
            i <= left@.len(),
            i <= right@.len(),
            left@ == encode_utf8(a@),
            right@ == encode_utf8(b@),
            bytes_before(left@, right@) == bytes_before(
                left@.subrange(i as int, left@.len() as int),
                right@.subrange(i as int, right@.len() as int),
            ),
        decreases left.len() - i,
    {
        let x: u8 = left[i];
        let y: u8 = right[i];
        proof {
            assert(left@.subrange(i as int, left@.len() as int)[0] == x);
            assert(right@.subrange(i as int, right@.len() as int)[0] == y);
        }
        if x != y {
            return x < y;
        }
        proof {
            assert(left@.subrange(i as int, left@.len() as int).drop_first() =~= left@.subrange(
                i + 1,
                left@.len() as int,
            ));
            assert(right@.subrange(i as int, right@.len() as int).drop_first()
                =~= right@.subrange(i + 1, right@.len() as int));
        }
        i = i + 1;
    }
    i < right.len()
}

/// Whether keys are in order, each before the next.
pub open spec fn keys_in_order(keys: Seq<Seq<char>>) -> bool {
    forall|i: int, j: int|
        0 <= i < j < keys.len() ==> text_before(#[trigger] keys[i], #[trigger] keys[j])
}

/// An ordered map keyed by identifiers.
#[derive(Debug)]
pub struct IdMap<K, V> {
    entries: Vec<(Identifier<K>, V)>,
}

impl<K, V> View for IdMap<K, V> {
    type V = Map<Seq<char>, V>;

    closed spec fn view(&self) -> Map<Seq<char>, V> {
        Map::new(
            |key: Seq<char>| self.spec_keys().contains(key),
            |key: Seq<char>| self.entries@[self.spec_keys().index_of(key)].1,
        )
    }
}

impl<K, V> IdMap<K, V> {
    /// The keys, in order.
    pub closed spec fn spec_keys(&self) -> Seq<Seq<char>> {
        self.entries@.map_values(|entry: (Identifier<K>, V)| entry.0@)
    }

    #[verifier::type_invariant]
    spec fn in_order(&self) -> bool {
        keys_in_order(self.spec_keys())
    }

    /// What keys in order amount to: each occurs once, and every value is found
    /// at its key's position.
    proof fn lemma_entries(&self)
        requires
            self.in_order(),
        ensures
            forall|i: int|
                0 <= i < self.entries@.len() ==> self@.dom().contains(
                    #[trigger] self.spec_keys()[i],
                ) && self@[self.spec_keys()[i]] == self.entries@[i].1,
            forall|key: Seq<char>| #[trigger]
                self@.dom().contains(key) ==> self.spec_keys().contains(key),
            self.spec_keys().len() == self.entries@.len(),
            self.spec_keys().no_duplicates(),
    {
        let keys = self.spec_keys();
        assert forall|i: int, j: int| 0 <= i < j < keys.len() implies keys[i] != keys[j] by {
            text_order_is_strict_and_total(keys[i], keys[i], keys[j]);
            assert(text_before(keys[i], keys[j]));
        }
        assert forall|i: int| 0 <= i < self.entries@.len() implies self@.dom().contains(
            #[trigger] keys[i],
        ) && self@[keys[i]] == self.entries@[i].1 by {
            assert(keys.contains(keys[i]));
            let found = keys.index_of(keys[i]);
            assert(keys[found] == keys[i]);
        }
    }

    /// The keys are exactly the domain.
    proof fn lemma_domain(&self)
        requires
            self.in_order(),
        ensures
            self.spec_keys().to_set() == self@.dom(),
            self@.dom().finite(),
            self@.len() == self.spec_keys().len(),
    {
        self.lemma_entries();
        let keys = self.spec_keys();
        assert(keys.to_set() =~= self@.dom());
        keys.unique_seq_to_set();
        vstd::seq_lib::seq_to_set_is_finite(keys);
    }

    /// A map with nothing in it.
    pub fn new() -> (map: Self)
        ensures
            map@ == Map::<Seq<char>, V>::empty(),
            map.spec_keys() == Seq::<Seq<char>>::empty(),
    {
        let entries: Vec<(Identifier<K>, V)> = Vec::new();
        let map = IdMap { entries };
        proof {
            assert(map.spec_keys() =~= Seq::<Seq<char>>::empty());
            assert(map@ =~= Map::<Seq<char>, V>::empty());
        }
        map
    }

    /// How many keys the map holds.
    pub fn len(&self) -> (len: usize)
        ensures
            len == self@.len(),
            len == self.spec_keys().len(),
            self@.dom().finite(),
            self.spec_keys().to_set() == self@.dom(),
            self.spec_keys().no_duplicates(),
            keys_in_order(self.spec_keys()),
    {
        proof {
            use_type_invariant(self);
            self.lemma_entries();
            self.lemma_domain();
        }
        self.entries.len()
    }

    /// The key at a position, in order.
    pub fn key_at(&self, index: usize) -> (key: &Identifier<K>)
        requires
            index < self.spec_keys().len(),
        ensures
            key@ == self.spec_keys()[index as int],
            self@.dom().contains(key@),
    {
        proof {
            use_type_invariant(self);
            self.lemma_entries();
        }
        &self.entries[index].0
    }

    /// The value at a position, in key order.
    pub fn value_at(&self, index: usize) -> (value: &V)
        requires
            index < self.spec_keys().len(),
        ensures
            self@.dom().contains(self.spec_keys()[index as int]),
            *value == self@[self.spec_keys()[index as int]],
    {
        proof {
            use_type_invariant(self);
            self.lemma_entries();
        }
        &self.entries[index].1
    }

    /// The first position whose key is not before a key.
    fn position(&self, key: &Identifier<K>) -> (position: usize)
        ensures
            position <= self.entries@.len(),
            forall|i: int| 0 <= i < position ==> text_before(#[trigger] self.spec_keys()[i], key@),
            forall|i: int|
                position <= i < self.entries@.len() ==> !text_before(
                    #[trigger] self.spec_keys()[i],
                    key@,
                ),
            self.spec_keys().contains(key@) <==> position < self.entries@.len()
                && self.spec_keys()[position as int] == key@,
    {
        proof {
            use_type_invariant(self);
            self.lemma_entries();
        }
        let mut i: usize = 0;
        while i < self.entries.len()
            invariant
                i <= self.entries@.len(),
                self.in_order(),
                self.spec_keys().len() == self.entries@.len(),
                forall|k: int| 0 <= k < i ==> text_before(#[trigger] self.spec_keys()[k], key@),
            decreases self.entries.len() - i,
        {
            if !is_text_before(self.entries[i].0.as_str(), key.as_str()) {
                proof {
                    self.lemma_position(i as int, key@);
                }
                return i;
            }
            i = i + 1;
        }
        proof {
            if self.spec_keys().contains(key@) {
                let k = self.spec_keys().index_of(key@);
                assert(text_before(self.spec_keys()[k], key@));
                text_order_is_strict_and_total(key@, key@, key@);
            }
        }
        i
    }

    proof fn lemma_position(&self, position: int, key: Seq<char>)
        requires
            self.in_order(),
            0 <= position < self.entries@.len(),
            forall|k: int| 0 <= k < position ==> text_before(#[trigger] self.spec_keys()[k], key),
            !text_before(self.spec_keys()[position], key),
        ensures
            forall|i: int|
                position <= i < self.entries@.len() ==> !text_before(
                    #[trigger] self.spec_keys()[i],
                    key,
                ),
            self.spec_keys().contains(key) <==> self.spec_keys()[position] == key,
    {
        let keys = self.spec_keys();
        assert forall|i: int| position <= i < keys.len() implies !text_before(
            #[trigger] keys[i],
            key,
        ) by {
            if i > position && text_before(keys[i], key) {
                assert(text_before(keys[position], keys[i]));
                text_order_is_strict_and_total(keys[position], keys[i], key);
            }
        }
        if keys.contains(key) {
            let k = keys.index_of(key);
            assert(keys[k] == key);
            text_order_is_strict_and_total(key, key, key);
            if k < position {
                assert(text_before(keys[k], key));
            } else if k > position {
                assert(text_before(keys[position], keys[k]));
            }
        }
    }

    /// The value of a key.
    pub fn get(&self, key: &Identifier<K>) -> (value: Option<&V>)
        ensures
            match value {
                Some(value) => self@.dom().contains(key@) && *value == self@[key@],
                None => !self@.dom().contains(key@),
            },
    {
        let position: usize = self.position(key);
        proof {
            use_type_invariant(self);
            self.lemma_entries();
        }
        if position < self.entries.len() && self.entries[position].0.same(key) {
            assert(self.spec_keys()[position as int] == key@);
            Some(&self.entries[position].1)
        } else {
            None
        }
    }

    /// Whether the map holds a key.
    pub fn contains_key(&self, key: &Identifier<K>) -> (result: bool)
        ensures
            result == self@.dom().contains(key@),
    {
        self.get(key).is_some()
    }

    /// Sets the value of a key, replacing the one it had.
    pub fn insert(&mut self, key: Identifier<K>, value: V)
        ensures
            final(self)@ == old(self)@.insert(key@, value),
    {
        let position: usize = self.position(&key);
        proof {
            use_type_invariant(&*self);
            self.lemma_entries();
        }
        let ghost keys = self.spec_keys();
        let ghost before = self@;
        let mut entries: Vec<(Identifier<K>, V)> = Vec::new();
        std::mem::swap(&mut entries, &mut self.entries);
        let ghost held = entries@;
        let present = position < entries.len() && entries[position].0.same(&key);
        if present {
            entries.set(position, (key, value));
        } else {
            entries.insert(position, (key, value));
        }
        proof {
            let next = IdMap::<K, V> { entries };
            let next_keys = next.spec_keys();
            if present {
                assert(next_keys =~= keys);
                assert(keys[position as int] == key@);
            } else {
                assert(next_keys =~= keys.insert(position as int, key@));
                assert forall|i: int, j: int| 0 <= i < j < next_keys.len() implies text_before(
                    #[trigger] next_keys[i],
                    #[trigger] next_keys[j],
                ) by {
                    let a = if i < position {
                        i
                    } else {
                        i - 1
                    };
                    let b = if j < position {
                        j
                    } else {
                        j - 1
                    };
                    if i == position {
                        text_order_is_strict_and_total(keys[b], key@, key@);
                        text_order_is_strict_and_total(key@, keys[b], key@);
                        assert(!text_before(keys[b], key@));
                        assert(keys[b] != key@);
                    } else if j == position {
                        assert(text_before(keys[a], key@));
                    } else {
                        assert(text_before(keys[a], keys[b]));
                    }
                }
            }
            assert(next.in_order());
            next.lemma_entries();
            assert(next@ =~= before.insert(key@, value)) by {
                assert forall|k: Seq<char>| #[trigger]
                    next@.dom().contains(k) == before.insert(key@, value).dom().contains(k) by {
                    if next@.dom().contains(k) {
                        let n = next_keys.index_of(k);
                        assert(next_keys[n] == k);
                        if k != key@ {
                            let o = if present || n < position {
                                n
                            } else {
                                n - 1
                            };
                            assert(keys[o] == k);
                        }
                    }
                    if before.dom().contains(k) {
                        let o = keys.index_of(k);
                        assert(keys[o] == k);
                        let n = if present || o < position {
                            o
                        } else {
                            o + 1
                        };
                        assert(next_keys[n] == k);
                    }
                    if k == key@ {
                        assert(next_keys[position as int] == k);
                    }
                }
                assert forall|k: Seq<char>| #[trigger] next@.dom().contains(k) implies next@[k]
                    == before.insert(key@, value)[k] by {
                    let n = next_keys.index_of(k);
                    assert(next_keys[n] == k);
                    assert(next@[next_keys[n]] == next.entries@[n].1);
                    if k == key@ {
                        assert(next_keys[position as int] == k);
                        assert(next@[next_keys[position as int]]
                            == next.entries@[position as int].1);
                    } else {
                        let o = if present || n < position {
                            n
                        } else {
                            n - 1
                        };
                        assert(keys[o] == k);
                        assert(before[keys[o]] == held[o].1);
                    }
                }
            }
        }
        *self = IdMap { entries };
    }

    /// Takes a key out of the map.
    pub fn remove(&mut self, key: &Identifier<K>) -> (value: Option<V>)
        ensures
            final(self)@ == old(self)@.remove(key@),
            match value {
                Some(value) => old(self)@.dom().contains(key@) && value == old(self)@[key@],
                None => !old(self)@.dom().contains(key@),
            },
    {
        let position: usize = self.position(key);
        proof {
            use_type_invariant(&*self);
            self.lemma_entries();
        }
        let ghost keys = self.spec_keys();
        let ghost before = self@;
        if !(position < self.entries.len() && self.entries[position].0.same(key)) {
            assert(self@ =~= before.remove(key@));
            return None;
        }
        assert(keys[position as int] == key@);
        let mut entries: Vec<(Identifier<K>, V)> = Vec::new();
        std::mem::swap(&mut entries, &mut self.entries);
        let ghost held = entries@;
        let removed = entries.remove(position);
        proof {
            let next = IdMap::<K, V> { entries };
            let next_keys = next.spec_keys();
            assert(next_keys =~= keys.remove(position as int));
            assert(next.in_order());
            next.lemma_entries();
            assert(next@ =~= before.remove(key@)) by {
                assert forall|k: Seq<char>| #[trigger]
                    next@.dom().contains(k) == before.remove(key@).dom().contains(k) by {
                    if next@.dom().contains(k) {
                        let n = next_keys.index_of(k);
                        assert(next_keys[n] == k);
                        let o = if n < position {
                            n
                        } else {
                            n + 1
                        };
                        assert(keys[o] == k);
                    }
                    if before.dom().contains(k) && k != key@ {
                        let o = keys.index_of(k);
                        assert(keys[o] == k);
                        let n = if o < position {
                            o
                        } else {
                            o - 1
                        };
                        assert(next_keys[n] == k);
                    }
                }
                assert forall|k: Seq<char>| #[trigger] next@.dom().contains(k) implies next@[k]
                    == before.remove(key@)[k] by {
                    let n = next_keys.index_of(k);
                    assert(next_keys[n] == k);
                    assert(next@[next_keys[n]] == next.entries@[n].1);
                    let o = if n < position {
                        n
                    } else {
                        n + 1
                    };
                    assert(keys[o] == k);
                    assert(before[keys[o]] == held[o].1);
                }
            }
        }
        *self = IdMap { entries };
        Some(removed.1)
    }
}

/// An ordered set of identifiers.
#[derive(Debug)]
pub struct IdSet<K> {
    members: IdMap<K, ()>,
}

impl<K> View for IdSet<K> {
    type V = Set<Seq<char>>;

    closed spec fn view(&self) -> Set<Seq<char>> {
        self.members@.dom()
    }
}

impl<K> IdSet<K> {
    /// A set with nothing in it.
    pub fn new() -> (set: Self)
        ensures
            set@ == Set::<Seq<char>>::empty(),
    {
        let set = IdSet { members: IdMap::new() };
        assert(set@ =~= Set::<Seq<char>>::empty());
        set
    }

    /// Puts an identifier in the set.
    pub fn insert(&mut self, member: Identifier<K>)
        ensures
            final(self)@ == old(self)@.insert(member@),
    {
        self.members.insert(member, ());
        assert(self@ =~= old(self)@.insert(member@));
    }

    /// Whether an identifier is in the set.
    pub fn contains(&self, member: &Identifier<K>) -> (result: bool)
        ensures
            result == self@.contains(member@),
    {
        self.members.contains_key(member)
    }

    /// How many identifiers are in the set.
    pub fn len(&self) -> (len: usize)
        ensures
            len == self@.len(),
            self@.finite(),
            len == self.spec_members().len(),
            self.spec_members().to_set() == self@,
    {
        self.members.len()
    }

    /// Whether the set is empty.
    pub fn is_empty(&self) -> (result: bool)
        ensures
            result == (self@ == Set::<Seq<char>>::empty()),
    {
        let result = self.len() == 0;
        proof {
            if result {
                assert(self@ =~= Set::<Seq<char>>::empty());
            }
        }
        result
    }

    /// The identifiers, in order.
    pub closed spec fn spec_members(&self) -> Seq<Seq<char>> {
        self.members.spec_keys()
    }

    /// The identifier at a position, in order.
    pub fn member_at(&self, index: usize) -> (member: &Identifier<K>)
        requires
            index < self.spec_members().len(),
        ensures
            member@ == self.spec_members()[index as int],
            self@.contains(member@),
    {
        self.members.key_at(index)
    }

    /// Whether every identifier of the set is in another.
    pub fn is_subset(&self, other: &Self) -> (result: bool)
        ensures
            result == self@.subset_of(other@),
    {
        let count: usize = self.len();
        let mut i: usize = 0;
        while i < count
            invariant
                i <= count,
                count == self.spec_members().len(),
                self.spec_members().to_set() == self@,
                forall|k: int| 0 <= k < i ==> other@.contains(#[trigger] self.spec_members()[k]),
            decreases count - i,
        {
            let member = self.member_at(i);
            if !other.contains(member) {
                assert(self@.contains(member@) && !other@.contains(member@));
                return false;
            }
            i = i + 1;
        }
        assert forall|text: Seq<char>| #[trigger] self@.contains(text) implies other@.contains(
            text,
        ) by {
            assert(self.spec_members().contains(text));
            let k = self.spec_members().index_of(text);
            assert(self.spec_members()[k] == text);
        }
        true
    }

    /// Puts every identifier of another set in this one.
    pub fn extend(&mut self, other: &Self)
        ensures
            final(self)@ == old(self)@.union(other@),
    {
        let count: usize = other.len();
        let ghost before = self@;
        let mut i: usize = 0;
        while i < count
            invariant
                i <= count,
                count == other.spec_members().len(),
                other.spec_members().to_set() == other@,
                forall|text: Seq<char>| #[trigger]
                    self@.contains(text) <==> before.contains(text) || exists|k: int|
                        0 <= k < i && other.spec_members()[k] == text,
            decreases count - i,
        {
            let ghost held = self@;
            let member = other.member_at(i);
            self.insert(member.clone());
            proof {
                assert forall|text: Seq<char>| #[trigger] self@.contains(text) implies (
                before.contains(text) || exists|k: int|
                    0 <= k < i + 1 && other.spec_members()[k] == text) by {
                    if text == member@ {
                        assert(other.spec_members()[i as int] == text);
                    } else if !before.contains(text) {
                        assert(held.contains(text));
                    }
                }
                assert forall|text: Seq<char>|
                    before.contains(text) || (exists|k: int|
                        0 <= k < i + 1 && other.spec_members()[k] == text) implies
                    #[trigger] self@.contains(text) by {
                    if !before.contains(text) {
                        let k = choose|k: int| 0 <= k < i + 1 && other.spec_members()[k] == text;
                        if k < i {
                            assert(held.contains(text));
                        }
                    } else {
                        assert(held.contains(text));
                    }
                }
            }
            i = i + 1;
        }
        proof {
            assert forall|text: Seq<char>| #[trigger] other@.contains(text) implies self@.contains(
                text,
            ) by {
                assert(other.spec_members().contains(text));
                let k = other.spec_members().index_of(text);
                assert(other.spec_members()[k] == text);
            }
            assert(self@ =~= before.union(other@)) by {
                assert forall|text: Seq<char>| #[trigger] self@.contains(text) implies before.union(
                    other@,
                ).contains(text) by {
                    if !before.contains(text) {
                        let k = choose|k: int| 0 <= k < count && other.spec_members()[k] == text;
                        assert(other.spec_members().contains(text));
                    }
                }
            }
        }
    }
}

impl<K> Clone for IdSet<K> {
    fn clone(&self) -> (copy: Self)
        ensures
            copy@ == self@,
    {
        let mut copy = Self::new();
        copy.extend(self);
        assert(copy@ =~= self@);
        copy
    }
}

} // verus!
