//! An in-memory table of records stored under text keys, kept in the order
//! in which keys were first stored.

use vstd::prelude::*;
use crate::text::{same_text, views, lemma_views_push};

verus! {

/// A record that a table stores.
pub trait Record: Sized {
    /// What the table's contracts compare records by.
    type M;

    /// The record's content.
    spec fn model(&self) -> Self::M;

    /// A copy of the record.
    fn duplicate(&self) -> (r: Self)
        ensures
            r.model() == self.model(),
    ;
}

/// The contents of a sequence of records.
pub open spec fn models<T: Record>(s: Seq<T>) -> Seq<T::M> {
    s.map_values(|t: T| t.model())
}

/// Whether no key occurs twice in `ks`.
pub open spec fn keys_unique(ks: Seq<Seq<char>>) -> bool {
    forall|i: int, j: int| 0 <= i < j < ks.len() ==> #[trigger] ks[i] != #[trigger] ks[j]
}

/// The position of key `k` in `ks`, when it occurs.
pub open spec fn position_of(ks: Seq<Seq<char>>, k: Seq<char>) -> int {
    choose|i: int| 0 <= i < ks.len() && ks[i] == k
}

/// The content stored under key `k`, if any.
pub open spec fn lookup<T: Record>(ks: Seq<Seq<char>>, rs: Seq<T>, k: Seq<char>) -> Option<T::M> {
    if ks.contains(k) {
        Some(rs[position_of(ks, k)].model())
    } else {
        None
    }
}

/// A table of records under distinct keys.
pub struct Table<T> {
    keys: Vec<String>,
    items: Vec<T>,
}

impl<T: Record> Table<T> {
    /// The keys, in the order they were first stored.
    pub closed spec fn keys(&self) -> Seq<Seq<char>> {
        views(self.keys@)
    }

    /// The records, each at the position of its key.
    pub closed spec fn records(&self) -> Seq<T> {
        self.items@
    }

    /// The content stored under key `k`, if any.
    pub open spec fn get_spec(&self, k: Seq<char>) -> Option<T::M> {
        lookup(self.keys(), self.records(), k)
    }

    /// The table's invariant: one record per key, keys distinct.
    pub closed spec fn wf(&self) -> bool {
        &&& self.keys@.len() == self.items@.len()
        &&& keys_unique(views(self.keys@))
    }

    /// A well-formed table has one record per key.
    pub proof fn lemma_lengths(&self)
        requires
            self.wf(),
        ensures
            self.keys().len() == self.records().len(),
            keys_unique(self.keys()),
    {
    }

    /// An empty table.
    pub fn new() -> (r: Table<T>)
        ensures
            r.wf(),
            r.keys() == Seq::<Seq<char>>::empty(),
            r.records() == Seq::<T>::empty(),
    {
        let r = Table { keys: Vec::new(), items: Vec::new() };
        proof {
            assert(views(r.keys@) =~= Seq::<Seq<char>>::empty());
        }
        r
    }

    /// The number of records.
    pub fn len(&self) -> (r: usize)
        requires
            self.wf(),
        ensures
            r == self.records().len(),
            r == self.keys().len(),
    {
        self.items.len()
    }

    /// The record at position `i`.
    pub fn at(&self, i: usize) -> (r: &T)
        requires
            self.wf(),
            i < self.records().len(),
        ensures
            *r == self.records()[i as int],
    {
        &self.items[i]
    }

    /// The key at position `i`.
    pub fn key_at(&self, i: usize) -> (r: &String)
        requires
            self.wf(),
            i < self.keys().len(),
        ensures
            r@ == self.keys()[i as int],
    {
        &self.keys[i]
    }

    /// The position of key `key`, if stored.
    pub fn find(&self, key: &str) -> (r: Option<usize>)
        requires
            self.wf(),
        ensures
            match r {
                Some(i) => i < self.keys().len() && self.keys()[i as int] == key@
                    && position_of(self.keys(), key@) == i,
                None => !self.keys().contains(key@),
            },
    {
        let ghost ks = views(self.keys@);
        let mut i: usize = 0;
        while i < self.keys.len()
            invariant
                ks == views(self.keys@),
                keys_unique(ks),
                i <= ks.len(),
                forall|j: int| 0 <= j < i ==> #[trigger] ks[j] != key@,
            decreases ks.len() - i,
        {
            if same_text(self.keys[i].as_str(), key) {
                proof {
                    let p = position_of(ks, key@);
                    assert(ks[i as int] == key@);
                    assert(0 <= p < ks.len() && ks[p] == key@);
                    if p > i as int {
                        assert(ks[i as int] != ks[p]);
                    }
                }
                return Some(i);
            }
            i = i + 1;
        }
        proof {
            if ks.contains(key@) {
                let j = choose|j: int| 0 <= j < ks.len() && ks[j] == key@;
                assert(ks[j] != key@);
            }
        }
        None
    }

    /// A copy of the record stored under `key`, if any.
    pub fn get(&self, key: &str) -> (r: Option<T>)
        requires
            self.wf(),
        ensures
            match r {
                Some(t) => self.get_spec(key@) == Some(t.model()),
                None => self.get_spec(key@) is None,
            },
    {
        match self.find(key) {
            Some(i) => Some(self.items[i].duplicate()),
            None => None,
        }
    }

    /// Stores `t` under `key`, replacing in place the record stored there.
    pub fn upsert(&mut self, key: String, t: T)
        requires
            old(self).wf(),
        ensures
            final(self).wf(),
            old(self).keys().contains(key@) ==> final(self).keys() == old(self).keys()
                && final(self).records() == old(self).records().update(position_of(old(self).keys(), key@), t),
            !old(self).keys().contains(key@) ==> final(self).keys() == old(self).keys().push(key@)
                && final(self).records() == old(self).records().push(t),
    {
        match self.find(key.as_str()) {
            Some(i) => {
                self.items.set(i, t);
            },
            None => {
                let ghost ks = self.keys@;
                let ghost k = key;
                self.keys.push(key);
                self.items.push(t);
                proof {
                    lemma_views_push(ks, k);
                    let vs = views(self.keys@);
                    assert(keys_unique(vs)) by {
                        assert forall|a: int, b: int| 0 <= a < b < vs.len() implies
                            #[trigger] vs[a] != #[trigger] vs[b] by {
                            if b == ks.len() {
                                assert(views(ks)[a] == vs[a]);
                            } else {
                                assert(views(ks)[a] != views(ks)[b]);
                            }
                        }
                    }
                }
            },
        }
    }

    /// Stores `t` under `key` unless the key is stored already; says whether
    /// it was stored.
    pub fn insert_new(&mut self, key: String, t: T) -> (r: bool)
        requires
            old(self).wf(),
        ensures
            final(self).wf(),
            r == !old(self).keys().contains(key@),
            r ==> final(self).keys() == old(self).keys().push(key@)
                && final(self).records() == old(self).records().push(t),
            !r ==> final(self).keys() == old(self).keys() && final(self).records() == old(self).records(),
    {
        match self.find(key.as_str()) {
            Some(_) => false,
            None => {
                self.upsert(key, t);
                true
            },
        }
    }

    /// Replaces the record at position `i`, keeping its key.
    pub fn replace_at(&mut self, i: usize, t: T)
        requires
            old(self).wf(),
            i < old(self).records().len(),
        ensures
            final(self).wf(),
            final(self).keys() == old(self).keys(),
            final(self).records() == old(self).records().update(i as int, t),
    {
        self.items.set(i, t);
    }
}

/// After storing `t` under `k`, reading `k` gives back `t`'s content; every
/// other key reads as before.
pub proof fn lemma_read_after_upsert<T: Record>(
    ks: Seq<Seq<char>>,
    rs: Seq<T>,
    ks2: Seq<Seq<char>>,
    rs2: Seq<T>,
    k: Seq<char>,
    t: T,
    other: Seq<char>,
)
    requires
        keys_unique(ks),
        ks.len() == rs.len(),
        ks.contains(k) ==> ks2 == ks && rs2 == rs.update(position_of(ks, k), t),
        !ks.contains(k) ==> ks2 == ks.push(k) && rs2 == rs.push(t),
    ensures
        lookup(ks2, rs2, k) == Some(t.model()),
        other != k ==> lookup(ks2, rs2, other) == lookup(ks, rs, other),
{
    if ks.contains(k) {
        let p = position_of(ks, k);
        assert(ks[p] == k);
        if other != k && ks.contains(other) {
            let q = position_of(ks, other);
            assert(ks[q] == other);
        }
    } else {
        let n = ks.len() as int;
        assert(ks2[n] == k);
        assert(ks2.contains(k));
        let q = position_of(ks2, k);
        assert(ks2[q] == k);
        if q < n {
            assert(ks[q] == k);
        }
        if other != k {
            if ks.contains(other) {
                let i = position_of(ks, other);
                assert(ks[i] == other);
                assert(ks2[i] == other);
                let j = position_of(ks2, other);
                assert(ks2[j] == other);
                if j != i {
                    if j == n {
                    } else if i < j {
                        assert(ks[i] != ks[j]);
                    } else {
                        assert(ks[j] != ks[i]);
                    }
                }
            } else {
                if ks2.contains(other) {
                    let j = position_of(ks2, other);
                    assert(ks2[j] == other);
                    if j < n {
                        assert(ks[j] == other);
                    }
                }
            }
        }
    }
}

/// At most `limit` leading elements of `s`; a negative limit keeps them all.
pub open spec fn take_limit<A>(s: Seq<A>, limit: i64) -> Seq<A> {
    if limit < 0 || limit >= s.len() {
        s
    } else {
        s.take(limit as int)
    }
}

} // verus!
