//! Ordered collections keyed by identifier.
//!
//! Every table of the clearing book is walked in ascending byte order of its
//! keys, so that two replicas compute the same digests, the same waterfall,
//! and the same netting legs.

use vstd::prelude::*;

use crate::ident::{
    ascending, is_ascending, lemma_ascending_insert, lemma_ascending_is, lemma_rank_injective, precedes,
    rank, same_id, Identifier,
};

verus! {

/// A value that can be copied without changing what it stands for.
pub trait Record: View + Sized {
    fn duplicate(&self) -> (r: Self)
        ensures
            r@ == self@,
    ;
}

impl Record for u128 {
    fn duplicate(&self) -> (r: Self) {
        *self
    }
}

impl Record for i128 {
    fn duplicate(&self) -> (r: Self) {
        *self
    }
}

spec fn keys_of<V>(s: Seq<(Identifier, V)>) -> Seq<Identifier> {
    s.map_values(|e: (Identifier, V)| e.0)
}

spec fn map_of<V: View>(s: Seq<(Identifier, V)>) -> Map<Identifier, V::V> {
    Map::new(|k: Identifier| keys_of(s).contains(k), |k: Identifier| s[keys_of(s).index_of(k)].1@)
}

proof fn lemma_map_of<V: View>(s: Seq<(Identifier, V)>)
    requires
        is_ascending(keys_of(s)),
    ensures
        map_of(s).dom().finite(),
        map_of(s).dom().len() == s.len(),
        keys_of(s) == ascending(map_of(s).dom()),
        forall|i: int|
            0 <= i < s.len() ==> map_of(s).contains_key(#[trigger] s[i].0) && map_of(s)[s[i].0]
                == s[i].1@,
        forall|k: Identifier| #[trigger]
            map_of(s).contains_key(k) ==> exists|i: int| 0 <= i < s.len() && s[i].0 == k,
{
    let ks = keys_of(s);
    assert forall|i: int| 0 <= i < s.len() implies map_of(s).contains_key(#[trigger] s[i].0)
        && map_of(s)[s[i].0] == s[i].1@ by {
        assert(ks[i] == s[i].0);
        assert(ks.contains(s[i].0));
        let j = ks.index_of(s[i].0);
        assert(ks[j] == ks[i]);
        if i < j {
            assert(rank(ks[i]) < rank(ks[j]));
        }
        if j < i {
            assert(rank(ks[j]) < rank(ks[i]));
        }
    }
    assert forall|k: Identifier| #[trigger] map_of(s).contains_key(k) implies exists|i: int|
        0 <= i < s.len() && s[i].0 == k by {
        let i = choose|i: int| 0 <= i < ks.len() && ks[i] == k;
        assert(s[i].0 == k);
    }
    assert(ks.to_set() =~= map_of(s).dom());
    lemma_ascending_is(ks, map_of(s).dom());
    assert(ks.no_duplicates());
    ks.unique_seq_to_set();
}

/// A table of records keyed by identifier, walked in ascending key order.
#[derive(Debug, PartialEq, Eq)]
pub struct IdMap<V> {
    entries: Vec<(Identifier, V)>,
}

impl<V: View> View for IdMap<V> {
    type V = Map<Identifier, V::V>;

    closed spec fn view(&self) -> Map<Identifier, V::V> {
        map_of(self.entries@)
    }
}

impl<V> IdMap<V> {
    #[verifier::type_invariant]
    spec fn keys_ascend(self) -> bool {
        is_ascending(keys_of(self.entries@))
    }

    /// The place of `key`: the index of its entry, or the index at which an
    /// entry for it would stand.
    fn locate(&self, key: &Identifier) -> (r: (bool, usize))
        ensures
            r.1 <= self.entries@.len(),
            forall|i: int| 0 <= i < r.1 ==> rank(#[trigger] self.entries@[i].0) < rank(*key),
            r.0 ==> r.1 < self.entries@.len() && self.entries@[r.1 as int].0 == *key,
            !r.0 ==> forall|i: int|
                r.1 <= i < self.entries@.len() ==> rank(*key) < rank(#[trigger] self.entries@[i].0),
    {
        proof {
            use_type_invariant(self);
        }
        let ghost ks = keys_of(self.entries@);
        assert(forall|i: int| 0 <= i < ks.len() ==> ks[i] == #[trigger] self.entries@[i].0);
        let mut low: usize = 0;
        let mut high: usize = self.entries.len();
        while low < high
            invariant
                low <= high <= self.entries@.len(),
                ks == keys_of(self.entries@),
                is_ascending(ks),
                forall|i: int| 0 <= i < ks.len() ==> ks[i] == #[trigger] self.entries@[i].0,
                forall|i: int| 0 <= i < low ==> rank(#[trigger] self.entries@[i].0) < rank(*key),
                forall|i: int|
                    high <= i < self.entries@.len() ==> rank(*key) <= rank(
                        #[trigger] self.entries@[i].0,
                    ),
            decreases high - low,
        {
            let middle: usize = low + (high - low) / 2;
            if precedes(&self.entries[middle].0, key) {
                assert forall|i: int| 0 <= i < middle + 1 implies rank(
                    #[trigger] self.entries@[i].0,
                ) < rank(*key) by {
                    assert(ks[i] == self.entries@[i].0);
                    assert(ks[middle as int] == self.entries@[middle as int].0);
                    if i < middle {
                        assert(rank(ks[i]) < rank(ks[middle as int]));
                    }
                }
                low = middle + 1;
            } else {
                assert forall|i: int| middle <= i < self.entries@.len() implies rank(*key) <= rank(
                    #[trigger] self.entries@[i].0,
                ) by {
                    assert(ks[i] == self.entries@[i].0);
                    assert(ks[middle as int] == self.entries@[middle as int].0);
                    if i > middle {
                        assert(rank(ks[middle as int]) < rank(ks[i]));
                    }
                }
                high = middle;
            }
        }
        if low < self.entries.len() && same_id(&self.entries[low].0, key) {
            (true, low)
        } else {
            proof {
                if low < self.entries@.len() {
                    let here = self.entries@[low as int].0;
                    if rank(here) == rank(*key) {
                        lemma_rank_injective(here, *key);
                    }
                }
                assert forall|i: int| low <= i < self.entries@.len() implies rank(*key) < rank(
                    #[trigger] self.entries@[i].0,
                ) by {
                    assert(ks[i] == self.entries@[i].0);
                    assert(ks[low as int] == self.entries@[low as int].0);
                    if i > low {
                        assert(rank(ks[low as int]) < rank(ks[i]));
                    }
                }
            }
            (false, low)
        }
    }
}

impl<V: View> IdMap<V> {
    /// A table without entries.
    pub fn new() -> (r: Self)
        ensures
            r@ == Map::<Identifier, V::V>::empty(),
    {
        let r = IdMap { entries: Vec::new() };
        proof {
            assert(keys_of(r.entries@) =~= Seq::empty());
            assert(r@ =~= Map::<Identifier, V::V>::empty());
        }
        r
    }

    /// How many entries the table has.
    pub fn len(&self) -> (r: usize)
        ensures
            self@.dom().finite(),
            r == self@.dom().len(),
            r == ascending(self@.dom()).len(),
            ascending(self@.dom()).to_set() == self@.dom(),
            is_ascending(ascending(self@.dom())),
    {
        proof {
            use_type_invariant(self);
            lemma_map_of(self.entries@);
            assert(keys_of(self.entries@).to_set() =~= map_of(self.entries@).dom());
        }
        self.entries.len()
    }

    /// The key at a position of the ascending order.
    pub fn key_at(&self, i: usize) -> (r: Identifier)
        requires
            i < self@.dom().len(),
        ensures
            r == ascending(self@.dom())[i as int],
            self@.contains_key(r),
    {
        proof {
            use_type_invariant(self);
            lemma_map_of(self.entries@);
            assert(keys_of(self.entries@)[i as int] == self.entries@[i as int].0);
        }
        self.entries[i].0
    }

    /// The record at a position of the ascending order.
    pub fn value_at(&self, i: usize) -> (r: &V)
        requires
            i < self@.dom().len(),
        ensures
            r@ == self@[ascending(self@.dom())[i as int]],
            self@.contains_key(ascending(self@.dom())[i as int]),
    {
        proof {
            use_type_invariant(self);
            lemma_map_of(self.entries@);
            assert(keys_of(self.entries@)[i as int] == self.entries@[i as int].0);
        }
        &self.entries[i].1
    }

    /// Whether the table has an entry for `key`.
    pub fn contains_key(&self, key: &Identifier) -> (r: bool)
        ensures
            r == self@.contains_key(*key),
    {
        self.get(key).is_some()
    }

    /// The record of `key`.
    pub fn get(&self, key: &Identifier) -> (r: Option<&V>)
        ensures
            match r {
                Some(v) => self@.contains_key(*key) && v@ == self@[*key],
                None => !self@.contains_key(*key),
            },
    {
        let (found, at) = self.locate(key);
        proof {
            use_type_invariant(self);
            lemma_map_of(self.entries@);
        }
        if found {
            Some(&self.entries[at].1)
        } else {
            None
        }
    }

    /// Sets the record of `key`, whether or not there was one.
    pub fn insert(&mut self, key: Identifier, value: V)
        ensures
            final(self)@ == old(self)@.insert(key, value@),
    {
        let (found, at) = self.locate(&key);
        proof {
            use_type_invariant(&*self);
            lemma_map_of(self.entries@);
        }
        let ghost before = self.entries@;
        let mut entries: Vec<(Identifier, V)> = Vec::new();
        proof {
            assert(keys_of(entries@) =~= Seq::<Identifier>::empty());
        }
        std::mem::swap(&mut entries, &mut self.entries);
        if found {
            entries.set(at, (key, value));
            proof {
                assert(keys_of(entries@) =~= keys_of(before));
            }
        } else {
            entries.insert(at, (key, value));
            proof {
                let ks = keys_of(before);
                assert forall|i: int| 0 <= i < at implies rank(#[trigger] ks[i]) < rank(key) by {
                    assert(ks[i] == before[i].0);
                }
                assert forall|i: int| at <= i < ks.len() implies rank(key) < rank(#[trigger] ks[i]) by {
                    assert(ks[i] == before[i].0);
                }
                lemma_ascending_insert(ks, at as int, key);
                assert(keys_of(entries@) =~= ks.insert(at as int, key));
            }
        }
        proof {
            lemma_map_of(entries@);
            let m = map_of(before);
            let n = map_of(entries@);
            assert forall|k: Identifier| n.contains_key(k) == m.insert(key, value@).contains_key(k) by {
                if n.contains_key(k) {
                    let i = choose|i: int| 0 <= i < entries@.len() && entries@[i].0 == k;
                    if i < at {
                        assert(before[i].0 == k);
                    } else if i > at {
                        if found {
                            assert(before[i].0 == k);
                        } else {
                            assert(before[i - 1].0 == k);
                        }
                    }
                }
                if m.contains_key(k) {
                    let i = choose|i: int| 0 <= i < before.len() && before[i].0 == k;
                    if i < at || found {
                        assert(entries@[i].0 == k);
                    } else {
                        assert(entries@[i + 1].0 == k);
                    }
                }
                assert(entries@[at as int].0 == key);
            }
            assert forall|k: Identifier| n.contains_key(k) implies n[k] == m.insert(
                key,
                value@,
            )[k] by {
                let i = choose|i: int| 0 <= i < entries@.len() && entries@[i].0 == k;
                assert(entries@[at as int].0 == key);
                if i < at {
                    assert(before[i] == entries@[i]);
                    assert(rank(before[i].0) < rank(key));
                } else if i > at {
                    if found {
                        assert(before[i] == entries@[i]);
                        assert(keys_of(before)[i] == k);
                        assert(keys_of(before)[at as int] == key);
                    } else {
                        assert(before[i - 1] == entries@[i]);
                    }
                }
            }
            assert(n =~= m.insert(key, value@));
        }
        self.entries = entries;
    }

    /// Takes the record of `key` out of the table.
    pub fn remove(&mut self, key: &Identifier) -> (r: Option<V>)
        ensures
            final(self)@ == old(self)@.remove(*key),
            match r {
                Some(v) => old(self)@.contains_key(*key) && v@ == old(self)@[*key],
                None => !old(self)@.contains_key(*key),
            },
    {
        let (found, at) = self.locate(key);
        proof {
            use_type_invariant(&*self);
            lemma_map_of(self.entries@);
        }
        if !found {
            proof {
                assert(self@ =~= self@.remove(*key));
            }
            return None;
        }
        let ghost before = self.entries@;
        let mut entries: Vec<(Identifier, V)> = Vec::new();
        proof {
            assert(keys_of(entries@) =~= Seq::<Identifier>::empty());
        }
        std::mem::swap(&mut entries, &mut self.entries);
        let (_, value) = entries.remove(at);
        proof {
            let ks = keys_of(before);
            let rest = keys_of(entries@);
            assert forall|i: int| 0 <= i < rest.len() implies rest[i] == (if i < at {
                ks[i]
            } else {
                ks[i + 1]
            }) by {}
            assert(is_ascending(rest));
            lemma_map_of(entries@);
            let m = map_of(before);
            let n = map_of(entries@);
            assert forall|k: Identifier| n.contains_key(k) == m.remove(*key).contains_key(k) by {
                if n.contains_key(k) {
                    let i = choose|i: int| 0 <= i < entries@.len() && entries@[i].0 == k;
                    let j = if i < at { i } else { i + 1 };
                    assert(before[j].0 == k);
                    assert(ks[j] == k && ks[at as int] == *key);
                    if j < at {
                        assert(rank(ks[j]) < rank(ks[at as int]));
                    } else {
                        assert(rank(ks[at as int]) < rank(ks[j]));
                    }
                }
                if m.remove(*key).contains_key(k) {
                    let i = choose|i: int| 0 <= i < before.len() && before[i].0 == k;
                    let j = if i < at { i } else { i - 1 };
                    assert(i != at);
                    assert(entries@[j].0 == k);
                }
            }
            assert forall|k: Identifier| n.contains_key(k) implies n[k] == m.remove(*key)[k] by {
                let i = choose|i: int| 0 <= i < entries@.len() && entries@[i].0 == k;
                let j = if i < at { i } else { i + 1 };
                assert(before[j] == entries@[i]);
            }
            assert(n =~= m.remove(*key));
        }
        self.entries = entries;
        Some(value)
    }
}

impl<V: Record> Record for IdMap<V> {
    fn duplicate(&self) -> (r: Self) {
        proof {
            use_type_invariant(self);
        }
        let mut entries: Vec<(Identifier, V)> = Vec::new();
        let mut i: usize = 0;
        while i < self.entries.len()
            invariant
                i <= self.entries@.len(),
                entries@.len() == i,
                forall|j: int|
                    0 <= j < i ==> (#[trigger] entries@[j]).0 == self.entries@[j].0 && entries@[j].1@
                        == self.entries@[j].1@,
            decreases self.entries@.len() - i,
        {
            entries.push((self.entries[i].0, self.entries[i].1.duplicate()));
            i = i + 1;
        }
        proof {
            assert(keys_of(entries@) =~= keys_of(self.entries@));
            lemma_map_of(entries@);
            lemma_map_of(self.entries@);
            assert forall|k: Identifier| #[trigger]
                map_of(entries@).contains_key(k) implies map_of(entries@)[k] == map_of(
                self.entries@,
            )[k] by {
                let j = choose|j: int| 0 <= j < entries@.len() && entries@[j].0 == k;
                assert(self.entries@[j].0 == k);
            }
            assert(map_of(entries@) =~= map_of(self.entries@));
        }
        IdMap { entries }
    }
}

impl<V: Record> IdMap<V> {
    /// Copies of the values, in ascending order of their keys.
    pub fn values(&self) -> (r: Vec<V>)
        ensures
            r@.len() == ascending(self@.dom()).len(),
            forall|i: int|
                0 <= i < r@.len() ==> (#[trigger] r@[i])@ == self@[ascending(self@.dom())[i]],
    {
        let count: usize = self.len();
        let mut out: Vec<V> = Vec::new();
        let mut i: usize = 0;
        while i < count
            invariant
                i <= count,
                count == self@.dom().len(),
                count == ascending(self@.dom()).len(),
                out@.len() == i,
                forall|j: int|
                    0 <= j < i ==> (#[trigger] out@[j])@ == self@[ascending(self@.dom())[j]],
            decreases count - i,
        {
            out.push(self.value_at(i).duplicate());
            i = i + 1;
        }
        out
    }
}

impl<V: Record> Clone for IdMap<V> {
    fn clone(&self) -> (r: Self)
        ensures
            r@ == self@,
    {
        self.duplicate()
    }
}

/// Marks an identifier as present.
#[derive(Clone, Copy, Debug, PartialEq, Eq)]
pub struct Present;

impl View for Present {
    type V = ();

    open spec fn view(&self) -> () {
        ()
    }
}

impl Record for Present {
    fn duplicate(&self) -> (r: Self) {
        Present
    }
}

/// A set of identifiers.
#[derive(Debug, PartialEq, Eq)]
pub struct IdSet {
    members: IdMap<Present>,
}

impl View for IdSet {
    type V = Set<Identifier>;

    closed spec fn view(&self) -> Set<Identifier> {
        self.members@.dom()
    }
}

impl IdSet {
    /// A set without members.
    pub fn new() -> (r: Self)
        ensures
            r@ == Set::<Identifier>::empty(),
    {
        let r = IdSet { members: IdMap::new() };
        assert(r@ =~= Set::<Identifier>::empty());
        r
    }

    /// How many members the set has.
    pub fn len(&self) -> (r: usize)
        ensures
            self@.finite(),
            r == self@.len(),
            r == ascending(self@).len(),
            ascending(self@).to_set() == self@,
            is_ascending(ascending(self@)),
    {
        self.members.len()
    }

    /// The member at a position of the ascending order.
    pub fn member_at(&self, i: usize) -> (r: Identifier)
        requires
            i < self@.len(),
        ensures
            r == ascending(self@)[i as int],
            self@.contains(r),
    {
        self.members.key_at(i)
    }

    /// Whether `id` is a member.
    pub fn contains(&self, id: &Identifier) -> (r: bool)
        ensures
            r == self@.contains(*id),
    {
        self.members.contains_key(id)
    }

    /// Adds `id` and reports whether it was new.
    pub fn insert(&mut self, id: Identifier) -> (r: bool)
        ensures
            final(self)@ == old(self)@.insert(id),
            r == !old(self)@.contains(id),
    {
        let fresh = !self.members.contains_key(&id);
        self.members.insert(id, Present);
        assert(self@ =~= old(self)@.insert(id));
        fresh
    }
}

impl Clone for IdSet {
    fn clone(&self) -> (r: Self)
        ensures
            r@ == self@,
    {
        self.duplicate()
    }
}

impl Record for IdSet {
    fn duplicate(&self) -> (r: Self) {
        IdSet { members: self.members.duplicate() }
    }
}

/// Whether two maps hold the same amounts under the same keys.
pub(crate) fn same_amounts(a: &IdMap<u128>, b: &IdMap<u128>) -> (r: bool)
    ensures
        r == (a@ == b@),
{
    let count: usize = a.len();
    let other: usize = b.len();
    if count != other {
        return false;
    }
    let ghost keys = ascending(a@.dom());
    let ghost others = ascending(b@.dom());
    let mut i: usize = 0;
    while i < count
        invariant
            i <= count,
            count == keys.len(),
            count == a@.dom().len(),
            count == others.len(),
            count == b@.dom().len(),
            keys == ascending(a@.dom()),
            others == ascending(b@.dom()),
            forall|j: int| 0 <= j < i ==> keys[j] == #[trigger] others[j],
            forall|j: int| 0 <= j < i ==> a@[keys[j]] == b@[#[trigger] keys[j]],
        decreases count - i,
    {
        if !same_id(&a.key_at(i), &b.key_at(i)) || *a.value_at(i) != *b.value_at(i) {
            return false;
        }
        i = i + 1;
    }
    proof {
        assert(keys =~= others);
        assert(keys.to_set() == a@.dom());
        assert(others.to_set() == b@.dom());
        assert forall|k: Identifier| a@.contains_key(k) implies a@[k] == b@[k] by {
            assert(keys.to_set().contains(k));
            let j = choose|j: int| 0 <= j < keys.len() && keys[j] == k;
            assert(a@[keys[j]] == b@[keys[j]]);
        }
        assert(a@ =~= b@);
    }
    true
}

} // verus!
