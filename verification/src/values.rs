//! Plain values that the application state is made of: identifiers, sets of
//! identifiers and dictionaries.
use vstd::prelude::*;
use crate::text::same_text;

verus! {

/// Greatest depth of the Merkle trees that commit to the containers.
pub const DEPTH: usize = 32;

/// A 256-bit commitment, as its four 64-bit limbs in canonical form.
#[derive(Clone, Copy, PartialEq, Eq, Structural, Debug, Hash)]
pub struct Digest(pub u64, pub u64, pub u64, pub u64);

/// The identifier of an item.
pub type Id = Digest;

/// A finite set of identifiers.
#[derive(Debug)]
pub struct IdSet {
    items: Vec<Digest>,
}

impl View for IdSet {
    type V = Set<Digest>;

    closed spec fn view(&self) -> Set<Digest> {
        self.items@.to_set()
    }
}

impl IdSet {
    /// No identifier is stored twice.
    #[verifier::type_invariant]
    spec fn distinct(self) -> bool {
        self.items@.no_duplicates()
    }

    pub fn new() -> (r: IdSet)
        ensures
            r@ == Set::<Digest>::empty(),
    {
        let r = IdSet { items: Vec::new() };
        assert(r@ =~= Set::<Digest>::empty());
        r
    }

    pub fn contains(&self, id: Digest) -> (r: bool)
        ensures
            r == self@.contains(id),
    {
        let mut i: usize = 0;
        while i < self.items.len()
            invariant
                i <= self.items@.len(),
                forall|j: int| 0 <= j < i ==> self.items@[j] != id,
            decreases self.items@.len() - i,
        {
            if self.items[i] == id {
                assert(self.items@.contains(self.items@[i as int]));
                return true;
            }
            i = i + 1;
        }
        false
    }

    /// Puts `id` into the set; a set that holds it already stays as it is.
    pub fn insert(&mut self, id: Digest)
        ensures
            final(self)@ == old(self)@.insert(id),
    {
        if self.contains(id) {
            assert(self@.insert(id) =~= self@);
        } else {
            proof {
                use_type_invariant(&*self);
            }
            let mut items: Vec<Digest> = Vec::new();
            std::mem::swap(&mut items, &mut self.items);
            let ghost before = items@;
            assert(!before.contains(id));
            items.push(id);
            assert(items@.no_duplicates());
            assert(items@.to_set() =~= before.to_set().insert(id)) by {
                assert forall|x: Digest| items@.contains(x) <==> before.contains(x) || x == id by {
                    if before.contains(x) {
                        let k = choose|k: int| 0 <= k < before.len() && before[k] == x;
                        assert(items@[k] == x);
                    }
                    assert(items@[before.len() as int] == id);
                }
            }
            self.items = items;
        }
    }

    /// The identifiers of the set, each once.
    pub fn elements(&self) -> (r: Vec<Digest>)
        ensures
            r@.to_set() == self@,
            r@.no_duplicates(),
    {
        proof {
            use_type_invariant(self);
        }
        let mut r: Vec<Digest> = Vec::new();
        let mut i: usize = 0;
        while i < self.items.len()
            invariant
                i <= self.items@.len(),
                r@ == self.items@.take(i as int),
            decreases self.items@.len() - i,
        {
            r.push(self.items[i]);
            assert(self.items@.take(i + 1) =~= self.items@.take(i as int).push(self.items@[i as int]));
            i = i + 1;
        }
        assert(self.items@.take(self.items@.len() as int) =~= self.items@);
        r
    }
}

impl Clone for IdSet {
    fn clone(&self) -> (r: Self)
        ensures
            r@ == self@,
    {
        let items = self.elements();
        IdSet { items }
    }
}

/// A value that a dictionary holds.
#[derive(Debug)]
pub enum Value {
    /// A text.
    Text(String),
    /// A value that is known by its commitment.
    Raw(Digest),
    /// A set of values, each known by its commitment.
    IdSet(IdSet),
}

/// What a [`Value`] stands for.
pub enum ValueView {
    Text(Seq<char>),
    Raw(Digest),
    IdSet(Set<Digest>),
}

impl View for Value {
    type V = ValueView;

    open spec fn view(&self) -> ValueView {
        match self {
            Value::Text(s) => ValueView::Text(s@),
            Value::Raw(h) => ValueView::Raw(*h),
            Value::IdSet(s) => ValueView::IdSet(s@),
        }
    }
}

impl Clone for Value {
    fn clone(&self) -> (r: Self)
        ensures
            r@ == self@,
    {
        match self {
            Value::Text(s) => Value::Text(s.clone()),
            Value::Raw(h) => Value::Raw(*h),
            Value::IdSet(s) => Value::IdSet(s.clone()),
        }
    }
}

/// What a [`Dictionary`] stands for: a map from texts to values.
pub type DictView = Map<Seq<char>, ValueView>;

/// A dictionary from texts to values.
#[derive(Debug)]
pub struct Dictionary {
    entries: Vec<(String, Value)>,
}

spec fn has_key(entries: Seq<(String, Value)>, key: Seq<char>) -> bool {
    exists|i: int| 0 <= i < entries.len() && #[trigger] entries[i].0@ == key
}

spec fn position(entries: Seq<(String, Value)>, key: Seq<char>) -> int {
    choose|i: int| 0 <= i < entries.len() && #[trigger] entries[i].0@ == key
}

spec fn distinct_keys(entries: Seq<(String, Value)>) -> bool {
    forall|i: int, j: int|
        0 <= i < entries.len() && 0 <= j < entries.len() && #[trigger] entries[i].0@
            == #[trigger] entries[j].0@ ==> i == j
}

spec fn entries_view(entries: Seq<(String, Value)>) -> DictView {
    Map::new(|k: Seq<char>| has_key(entries, k), |k: Seq<char>| entries[position(entries, k)].1@)
}

impl View for Dictionary {
    type V = DictView;

    closed spec fn view(&self) -> DictView {
        entries_view(self.entries@)
    }
}

impl Dictionary {
    /// No key is stored twice.
    #[verifier::type_invariant]
    spec fn distinct(self) -> bool {
        distinct_keys(self.entries@)
    }

    pub fn new() -> (r: Dictionary)
        ensures
            r@ == Map::<Seq<char>, ValueView>::empty(),
    {
        let r = Dictionary { entries: Vec::new() };
        assert(r@ =~= Map::<Seq<char>, ValueView>::empty());
        r
    }

    /// Whether the dictionary holds no entry.
    pub fn is_empty(&self) -> (r: bool)
        ensures
            r == (self@ == Map::<Seq<char>, ValueView>::empty()),
    {
        if self.entries.len() == 0 {
            assert(self@ =~= Map::<Seq<char>, ValueView>::empty());
            true
        } else {
            assert(has_key(self.entries@, self.entries@[0].0@));
            assert(self@.dom().contains(self.entries@[0].0@));
            false
        }
    }

    fn find(&self, key: &str) -> (r: Option<usize>)
        ensures
            r matches Some(i) ==> i < self.entries@.len() && self.entries@[i as int].0@ == key@
                && self@.contains_key(key@) && self@[key@] == self.entries@[i as int].1@,
            r is None ==> !self@.contains_key(key@),
    {
        proof {
            use_type_invariant(self);
        }
        let mut i: usize = 0;
        while i < self.entries.len()
            invariant
                distinct_keys(self.entries@),
                i <= self.entries@.len(),
                forall|j: int| 0 <= j < i ==> #[trigger] self.entries@[j].0@ != key@,
            decreases self.entries@.len() - i,
        {
            if same_text(self.entries[i].0.as_str(), key) {
                assert(has_key(self.entries@, key@));
                assert(position(self.entries@, key@) == i);
                return Some(i);
            }
            i = i + 1;
        }
        None
    }

    /// The value under `key`.
    pub fn get(&self, key: &str) -> (r: Option<&Value>)
        ensures
            r is Some <==> self@.contains_key(key@),
            r matches Some(v) ==> v@ == self@[key@],
    {
        match self.find(key) {
            Some(i) => Some(&self.entries[i].1),
            None => None,
        }
    }

    /// Puts `value` under `key`, in place of what was there.
    pub fn insert(&mut self, key: &str, value: Value)
        ensures
            final(self)@ == old(self)@.insert(key@, value@),
    {
        let found = self.find(key);
        proof {
            use_type_invariant(&*self);
        }
        let mut entries: Vec<(String, Value)> = Vec::new();
        std::mem::swap(&mut entries, &mut self.entries);
        let ghost before = entries@;
        match found {
            Some(i) => {
                let pair = (key.to_owned(), value);
                entries.set(i, pair);
                proof {
                    lemma_put(before, entries@, i as int, key@);
                }
            },
            None => {
                let pair = (key.to_owned(), value);
                entries.push(pair);
                proof {
                    lemma_put(before, entries@, before.len() as int, key@);
                }
            },
        }
        self.entries = entries;
    }

    /// The entries, each key once.
    pub fn entries(&self) -> (r: &Vec<(String, Value)>)
        ensures
            forall|i: int|
                0 <= i < r@.len() ==> self@.contains_key(#[trigger] r@[i].0@) && self@[r@[i].0@]
                    == r@[i].1@,
            forall|k: Seq<char>| #[trigger]
                self@.contains_key(k) ==> exists|i: int| 0 <= i < r@.len() && r@[i].0@ == k,
            forall|i: int, j: int|
                0 <= i < r@.len() && 0 <= j < r@.len() && #[trigger] r@[i].0@
                    == #[trigger] r@[j].0@ ==> i == j,
    {
        proof {
            use_type_invariant(self);
            assert forall|i: int| 0 <= i < self.entries@.len() implies self@.contains_key(
                #[trigger] self.entries@[i].0@,
            ) && self@[self.entries@[i].0@] == self.entries@[i].1@ by {
                assert(has_key(self.entries@, self.entries@[i].0@));
                assert(position(self.entries@, self.entries@[i].0@) == i);
            }
        }
        &self.entries
    }
}

/// Replacing the entry at the key's place, or adding one at the end for a new key,
/// inserts into the map.
proof fn lemma_put(before: Seq<(String, Value)>, after: Seq<(String, Value)>, i: int, key: Seq<char>)
    requires
        distinct_keys(before),
        0 <= i < after.len(),
        after[i].0@ == key,
        (i < before.len() && before[i].0@ == key && after == before.update(i, after[i])) || (i
            == before.len() && !has_key(before, key) && after == before.push(after[i])),
    ensures
        distinct_keys(after),
        entries_view(after) == entries_view(before).insert(key, after[i].1@),
{
    assert forall|j: int, k: int|
        0 <= j < after.len() && 0 <= k < after.len() && #[trigger] after[j].0@
            == #[trigger] after[k].0@ implies j == k by {
        if j < before.len() {
            assert(before[j].0@ == after[j].0@);
        }
        if k < before.len() {
            assert(before[k].0@ == after[k].0@);
        }
    }
    assert forall|k: Seq<char>| has_key(after, k) <==> has_key(before, k) || k == key by {
        if has_key(before, k) {
            let j = position(before, k);
            assert(after[j].0@ == k);
        }
        if has_key(after, k) {
            let j = position(after, k);
            if j < before.len() {
                assert(before[j].0@ == k);
            }
        }
    }
    assert forall|k: Seq<char>| has_key(after, k) implies after[position(after, k)].1@ == entries_view(
        before,
    ).insert(key, after[i].1@)[k] by {
        let j = position(after, k);
        if k == key {
            assert(j == i);
        } else {
            assert(j < before.len() && j != i);
            assert(before[j].0@ == k);
            assert(position(before, k) == j);
        }
    }
    assert(entries_view(after) =~= entries_view(before).insert(key, after[i].1@));
}

impl Clone for Dictionary {
    fn clone(&self) -> (r: Self)
        ensures
            r@ == self@,
    {
        proof {
            use_type_invariant(self);
        }
        let mut entries: Vec<(String, Value)> = Vec::new();
        let mut i: usize = 0;
        while i < self.entries.len()
            invariant
                i <= self.entries@.len(),
                entries@.len() == i,
                forall|j: int|
                    0 <= j < i ==> (#[trigger] entries@[j]).0@ == self.entries@[j].0@
                        && entries@[j].1@ == self.entries@[j].1@,
            decreases self.entries@.len() - i,
        {
            let pair = (self.entries[i].0.clone(), self.entries[i].1.clone());
            entries.push(pair);
            i = i + 1;
        }
        let ghost mine = self.entries@;
        proof {
            assert(distinct_keys(entries@)) by {
                assert forall|j: int, k: int|
                    0 <= j < entries@.len() && 0 <= k < entries@.len() && #[trigger] entries@[j].0@
                        == #[trigger] entries@[k].0@ implies j == k by {
                    assert(mine[j].0@ == mine[k].0@);
                }
            }
            assert forall|k: Seq<char>| has_key(entries@, k) <==> has_key(mine, k) by {
                if has_key(mine, k) {
                    let j = position(mine, k);
                    assert(entries@[j].0@ == k);
                }
                if has_key(entries@, k) {
                    let j = position(entries@, k);
                    assert(mine[j].0@ == k);
                }
            }
            assert forall|k: Seq<char>| has_key(mine, k) implies entries@[position(entries@, k)].1@
                == mine[position(mine, k)].1@ by {
                let j = position(mine, k);
                assert(entries@[j].0@ == k);
                assert(position(entries@, k) == j);
            }
            assert(entries_view(entries@) =~= entries_view(mine));
        }
        Dictionary { entries }
    }
}

/// What is said of a value is said of its text, its commitment or its set.
pub proof fn law_values_stand_for_themselves(value: Value)
    ensures
        match value {
            Value::Text(s) => value@ == ValueView::Text(s@),
            Value::Raw(h) => value@ == ValueView::Raw(h),
            Value::IdSet(s) => value@ == ValueView::IdSet(s@),
        },
{
}

} // verus!
