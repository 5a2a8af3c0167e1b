use vstd::prelude::*;
use crate::text::same_text;

verus! {

/// A map from string keys to values, kept as a list of entries with
/// distinct keys in the order in which the keys first arrived.
pub struct Table<V> {
    entries: Vec<(String, V)>,
    model: Ghost<Map<Seq<char>, V>>,
}

impl<V> View for Table<V> {
    type V = Map<Seq<char>, V>;

    closed spec fn view(&self) -> Map<Seq<char>, V> {
        self.model@
    }
}

impl<V> Table<V> {
    /// The entries have distinct keys and hold exactly what the map holds.
    pub closed spec fn wf(&self) -> bool {
        &&& forall|i: int, j: int|
            0 <= i < j < self.entries@.len() ==> #[trigger] self.entries@[i].0@ != #[trigger] self.entries@[j].0@
        &&& forall|i: int|
            0 <= i < self.entries@.len() ==> {
                &&& self.model@.contains_key(#[trigger] self.entries@[i].0@)
                &&& self.model@[self.entries@[i].0@] == self.entries@[i].1
            }
        &&& forall|k: Seq<char>|
            #[trigger] self.model@.contains_key(k) ==> exists|i: int|
                0 <= i < self.entries@.len() && #[trigger] self.entries@[i].0@ == k
    }

    pub fn new() -> (r: Self)
        ensures
            r.wf(),
            r@ == Map::<Seq<char>, V>::empty(),
    {
        Table { entries: Vec::new(), model: Ghost(Map::empty()) }
    }

    fn position(&self, key: &str) -> (r: Option<usize>)
        requires
            self.wf(),
        ensures
            match r {
                Some(i) => i < self.entries@.len() && self.entries@[i as int].0@ == key@,
                None => !self@.contains_key(key@),
            },
    {
        let mut i: usize = 0;
        while i < self.entries.len()
            invariant
                i <= self.entries@.len(),
                forall|j: int| 0 <= j < i ==> #[trigger] self.entries@[j].0@ != key@,
            decreases self.entries.len() - i,
        {
            if same_text(self.entries[i].0.as_str(), key) {
                return Some(i);
            }
            i = i + 1;
        }
        None
    }

    /// The value stored under `key`, if any.
    pub fn get(&self, key: &str) -> (r: Option<&V>)
        requires
            self.wf(),
        ensures
            match r {
                Some(v) => self@.contains_key(key@) && *v == self@[key@],
                None => !self@.contains_key(key@),
            },
    {
        match self.position(key) {
            Some(i) => Some(&self.entries[i].1),
            None => None,
        }
    }

    /// Stores `value` under `key`, replacing what was there.
    pub fn insert(&mut self, key: String, value: V)
        requires
            old(self).wf(),
        ensures
            final(self).wf(),
            final(self)@ == old(self)@.insert(key@, value),
    {
        let ghost k = key@;
        let ghost m = self.model@.insert(k, value);
        match self.position(key.as_str()) {
            Some(i) => {
                self.entries.set(i, (key, value));
                self.model = Ghost(m);
                assert forall|k2: Seq<char>| #[trigger] m.contains_key(k2) implies exists|j: int|
                    0 <= j < self.entries@.len() && #[trigger] self.entries@[j].0@ == k2 by {
                    if k2 != k {
                        assert(old(self)@.contains_key(k2));
                        let j = choose|j: int| 0 <= j < old(self).entries@.len() && #[trigger] old(self).entries@[j].0@ == k2;
                        assert(self.entries@[j] == old(self).entries@[j]);
                    } else {
                        assert(self.entries@[i as int].0@ == k2);
                    }
                }
            },
            None => {
                self.entries.push((key, value));
                self.model = Ghost(m);
                let ghost n = self.entries@.len() - 1;
                assert forall|k2: Seq<char>| #[trigger] m.contains_key(k2) implies exists|j: int|
                    0 <= j < self.entries@.len() && #[trigger] self.entries@[j].0@ == k2 by {
                    if k2 != k {
                        assert(old(self)@.contains_key(k2));
                        let j = choose|j: int| 0 <= j < old(self).entries@.len() && #[trigger] old(self).entries@[j].0@ == k2;
                        assert(self.entries@[j] == old(self).entries@[j]);
                    } else {
                        assert(self.entries@[n].0@ == k2);
                    }
                }
            },
        }
    }
}

} // verus!
