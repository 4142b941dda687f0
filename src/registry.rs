//! The table of engines, keyed by prefix; the empty prefix is the default engine.
use vstd::prelude::*;
use vstd::string::*;

use crate::engine::Engine;
use crate::text::{has_ws, same_text};

verus! {

/// Engines keyed by the prefix that selects them.
pub struct Registry {
    entries: Vec<(String, Engine)>,
}

impl Registry {
    /// Entry `i` is keyed by `k`.
    pub closed spec fn keyed_at(&self, k: Seq<char>, i: int) -> bool {
        0 <= i < self.entries@.len() && self.entries@[i].0@ == k
    }

    /// No two entries share a key.
    pub closed spec fn inv(&self) -> bool {
        forall|i: int, j: int|
            0 <= i < self.entries@.len() && 0 <= j < self.entries@.len() && i != j
                ==> self.entries@[i].0@ != self.entries@[j].0@
    }

    /// A usable registry: a default engine under the empty prefix, and no
    /// prefix holding whitespace.
    pub open spec fn wf(&self) -> bool {
        &&& self.inv()
        &&& self@.contains_key(Seq::empty())
        &&& forall|k: Seq<char>| #[trigger] self@.contains_key(k) ==> !has_ws(k)
    }

    proof fn lemma_view_at(&self, k: Seq<char>, i: int)
        requires
            self.inv(),
            self.keyed_at(k, i),
        ensures
            self@.contains_key(k),
            self@[k] == self.entries@[i].1,
    {
        let j = choose|j: int| self.keyed_at(k, j);
        assert(self.keyed_at(k, j));
    }

    /// An empty table.
    pub fn new() -> (r: Registry)
        ensures
            r.inv(),
            r@ == Map::<Seq<char>, Engine>::empty(),
    {
        let r = Registry { entries: Vec::new() };
        assert(r@ =~= Map::<Seq<char>, Engine>::empty());
        r
    }

    /// The number of engines.
    pub fn len(&self) -> (r: usize)
        requires
            self.inv(),
        ensures
            r == self@.len(),
    {
        proof {
            self.lemma_len();
        }
        self.entries.len()
    }

    proof fn lemma_len(&self)
        requires
            self.inv(),
        ensures
            self@.len() == self.entries@.len(),
        decreases self.entries@.len(),
    {
        let keys = Seq::new(self.entries@.len(), |i: int| self.entries@[i].0@);
        assert(self@.dom() =~= keys.to_set()) by {
            assert forall|k: Seq<char>| self@.dom().contains(k) implies keys.to_set().contains(k) by {
                let i = choose|i: int| self.keyed_at(k, i);
                assert(keys[i] == k);
            }
            assert forall|k: Seq<char>| keys.to_set().contains(k) implies self@.dom().contains(k) by {
                let i = choose|i: int| 0 <= i < keys.len() && keys[i] == k;
                assert(self.keyed_at(k, i));
            }
        }
        assert(keys.no_duplicates());
        keys.unique_seq_to_set();
    }

    /// Adds `engine` under a prefix that the table does not hold yet.
    pub fn insert(&mut self, key: String, engine: Engine)
        requires
            old(self).inv(),
            !old(self)@.contains_key(key@),
        ensures
            final(self).inv(),
            final(self)@ == old(self)@.insert(key@, engine),
    {
        let ghost before = *self;
        let ghost k0 = key@;
        self.entries.push((key, engine));
        proof {
            let after = *self;
            let n = before.entries@.len() as int;
            assert forall|i: int| 0 <= i < n implies !before.keyed_at(k0, i) by {
                if before.keyed_at(k0, i) {
                    before.lemma_view_at(k0, i);
                }
            }
            assert(after.entries@[n].0@ == k0);
            assert forall|i: int, j: int|
                0 <= i < after.entries@.len() && 0 <= j < after.entries@.len() && i != j
                    implies after.entries@[i].0@ != after.entries@[j].0@ by {
                if i < n && j < n {
                    assert(before.entries@[i] == after.entries@[i]);
                    assert(before.entries@[j] == after.entries@[j]);
                } else if i == n {
                    assert(before.entries@[j] == after.entries@[j]);
                    assert(!before.keyed_at(k0, j));
                } else {
                    assert(before.entries@[i] == after.entries@[i]);
                    assert(!before.keyed_at(k0, i));
                }
            }
            assert(after.inv());
            assert forall|k: Seq<char>| #![auto] after@.contains_key(k) == before@.insert(k0, engine).contains_key(k) by {
                if after@.contains_key(k) {
                    let i = choose|i: int| after.keyed_at(k, i);
                    if i < n {
                        assert(before.keyed_at(k, i));
                    }
                }
                if before@.contains_key(k) {
                    let i = choose|i: int| before.keyed_at(k, i);
                    assert(after.keyed_at(k, i));
                }
                if k == k0 {
                    assert(after.keyed_at(k, n));
                }
            }
            assert forall|k: Seq<char>| after@.contains_key(k) implies #[trigger] after@[k] == before@.insert(k0, engine)[k] by {
                let i = choose|i: int| after.keyed_at(k, i);
                after.lemma_view_at(k, i);
                if i < n {
                    assert(before.keyed_at(k, i));
                    before.lemma_view_at(k, i);
                }
            }
            assert(after@ =~= before@.insert(k0, engine));
        }
    }

    /// The engine under `key`, if any.
    pub fn lookup(&self, key: &str) -> (r: Option<&Engine>)
        requires
            self.inv(),
        ensures
            r is Some <==> self@.contains_key(key@),
            r matches Some(e) ==> *e == self@[key@],
    {
        let mut i: usize = 0;
        while i < self.entries.len()
            invariant
                self.inv(),
                i <= self.entries@.len(),
                forall|j: int| 0 <= j < i ==> !self.keyed_at(key@, j),
            decreases self.entries@.len() - i,
        {
            if same_text(self.entries[i].0.as_str(), key) {
                proof {
                    self.lemma_view_at(key@, i as int);
                }
                return Some(&self.entries[i].1);
            }
            i = i + 1;
        }
        proof {
            if self@.contains_key(key@) {
                let j = choose|j: int| self.keyed_at(key@, j);
                assert(self.keyed_at(key@, j));
            }
        }
        None
    }

    /// The default engine.
    pub fn default_engine(&self) -> (r: &Engine)
        requires
            self.wf(),
        ensures
            *r == self@[Seq::empty()],
    {
        proof {
            reveal_strlit("");
            assert(""@ =~= Seq::<char>::empty());
        }
        match self.lookup("") {
            Some(e) => e,
            None => {
                assert(false);
                &self.entries[0].1
            },
        }
    }
}

impl View for Registry {
    type V = Map<Seq<char>, Engine>;

    closed spec fn view(&self) -> Map<Seq<char>, Engine> {
        Map::new(
            |k: Seq<char>| exists|i: int| self.keyed_at(k, i),
            |k: Seq<char>| self.entries@[choose|i: int| self.keyed_at(k, i)].1,
        )
    }
}

} // verus!
