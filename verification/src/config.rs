//! Per-guild configuration: text keys mapped to text values, each key once.

use vstd::prelude::*;

use crate::text::same_text;

verus! {

/// The entries of a configuration, as key/value texts.
pub open spec fn entry_views(v: Seq<(String, String)>) -> Seq<(Seq<char>, Seq<char>)> {
    v.map_values(|e: (String, String)| (e.0@, e.1@))
}

/// No key occurs twice.
pub open spec fn keys_distinct(e: Seq<(Seq<char>, Seq<char>)>) -> bool {
    forall|i: int, j: int| 0 <= i < j < e.len() ==> e[i].0 != e[j].0
}

/// Value stored under `key`, if any.
pub open spec fn lookup(e: Seq<(Seq<char>, Seq<char>)>, key: Seq<char>) -> Option<Seq<char>>
    decreases e.len(),
{
    if e.len() == 0 {
        None
    } else if e.last().0 == key {
        Some(e.last().1)
    } else {
        lookup(e.drop_last(), key)
    }
}

pub proof fn lemma_lookup_index(e: Seq<(Seq<char>, Seq<char>)>, key: Seq<char>)
    ensures
        lookup(e, key) is None <==> forall|i: int| 0 <= i < e.len() ==> e[i].0 != key,
        lookup(e, key) matches Some(v) ==> exists|i: int| 0 <= i < e.len() && e[i].0 == key && e[i].1 == v,
    decreases e.len(),
{
    if e.len() > 0 {
        lemma_lookup_index(e.drop_last(), key);
        if e.last().0 != key {
            assert forall|i: int| 0 <= i < e.len() - 1 implies e.drop_last()[i] == e[i] by {}
            if lookup(e, key) is Some {
                let v = lookup(e, key)->0;
                let i = choose|i: int| 0 <= i < e.len() - 1 && e.drop_last()[i].0 == key && e.drop_last()[i].1 == v;
                assert(e[i].0 == key && e[i].1 == v);
            }
        } else {
            assert(e[e.len() - 1].0 == key);
        }
    }
}

/// With distinct keys, the value at a position is the one looked up.
pub proof fn lemma_lookup_at(e: Seq<(Seq<char>, Seq<char>)>, i: int)
    requires
        keys_distinct(e),
        0 <= i < e.len(),
    ensures
        lookup(e, e[i].0) == Some(e[i].1),
    decreases e.len(),
{
    if i < e.len() - 1 {
        assert(e.drop_last()[i] == e[i]);
        assert(keys_distinct(e.drop_last()));
        lemma_lookup_at(e.drop_last(), i);
    }
}

/// A guild's configuration for one bot module.
pub struct GuildConfig {
    entries: Vec<(String, String)>,
}

impl View for GuildConfig {
    type V = Seq<(Seq<char>, Seq<char>)>;

    closed spec fn view(&self) -> Seq<(Seq<char>, Seq<char>)> {
        entry_views(self.entries@)
    }
}

impl GuildConfig {
    /// Each key occurs once.
    pub closed spec fn wf(&self) -> bool {
        keys_distinct(self@)
    }

    /// An empty configuration.
    pub fn new() -> (r: GuildConfig)
        ensures
            r.wf(),
            r@ == Seq::<(Seq<char>, Seq<char>)>::empty(),
    {
        let r = GuildConfig { entries: Vec::new() };
        assert(r@ =~= Seq::<(Seq<char>, Seq<char>)>::empty());
        r
    }

    /// Number of entries.
    pub fn len(&self) -> (r: usize)
        ensures
            r == self@.len(),
    {
        self.entries.len()
    }

    /// Key and value of the entry at `i`.
    pub fn entry(&self, i: usize) -> (r: (&String, &String))
        requires
            i < self@.len(),
        ensures
            r.0@ == self@[i as int].0,
            r.1@ == self@[i as int].1,
    {
        let e = &self.entries[i];
        (&e.0, &e.1)
    }

    fn position(&self, key: &str) -> (r: Option<usize>)
        ensures
            r matches Some(i) ==> i < self@.len() && self@[i as int].0 == key@,
            r is None ==> forall|i: int| 0 <= i < self@.len() ==> self@[i].0 != key@,
    {
        let mut i: usize = 0;
        while i < self.entries.len()
            invariant
                i <= self@.len(),
                self@.len() == self.entries@.len(),
                forall|j: int| 0 <= j < i ==> self@[j].0 != key@,
            decreases self@.len() - i,
        {
            if same_text(self.entries[i].0.as_str(), key) {
                return Some(i);
            }
            i = i + 1;
        }
        None
    }

    /// Value stored under `key` (std `HashMap::get`).
    pub fn get(&self, key: &str) -> (r: Option<&String>)
        requires
            self.wf(),
        ensures
            r matches Some(v) ==> lookup(self@, key@) == Some(v@),
            r is None ==> lookup(self@, key@) is None,
    {
        proof {
            lemma_lookup_index(self@, key@);
        }
        match self.position(key) {
            Some(i) => {
                proof {
                    lemma_lookup_at(self@, i as int);
                }
                Some(&self.entries[i].1)
            },
            None => None,
        }
    }

    /// Stores `value` under `key`, replacing the value already there
    /// (std `HashMap::insert`).
    pub fn insert(&mut self, key: String, value: String)
        requires
            old(self).wf(),
        ensures
            final(self).wf(),
            lookup(final(self)@, key@) == Some(value@),
            forall|k: Seq<char>| k != key@ ==> lookup(final(self)@, k) == lookup(old(self)@, k),
    {
        let ghost k = key@;
        let ghost v = value@;
        match self.position(key.as_str()) {
            Some(i) => {
                self.entries.set(i, (key, value));
                assert(self@ =~= old(self)@.update(i as int, (k, v)));
                proof {
                    assert(keys_distinct(self@));
                    lemma_lookup_at(self@, i as int);
                    assert forall|q: Seq<char>| q != k implies lookup(self@, q) == lookup(old(self)@, q) by {
                        lemma_lookup_index(self@, q);
                        lemma_lookup_index(old(self)@, q);
                        if lookup(self@, q) is Some {
                            let j = choose|j: int| 0 <= j < self@.len() && self@[j].0 == q && self@[j].1 == lookup(self@, q)->0;
                            lemma_lookup_at(old(self)@, j);
                            lemma_lookup_at(self@, j);
                        }
                        if lookup(old(self)@, q) is Some {
                            let j = choose|j: int| 0 <= j < old(self)@.len() && old(self)@[j].0 == q && old(self)@[j].1 == lookup(old(self)@, q)->0;
                            lemma_lookup_at(old(self)@, j);
                            lemma_lookup_at(self@, j);
                        }
                    }
                }
            },
            None => {
                self.entries.push((key, value));
                assert(self@ =~= old(self)@.push((k, v)));
                assert(self@.drop_last() =~= old(self)@);
            },
        }
    }
}

} // verus!
