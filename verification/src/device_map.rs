//! A small map keyed by device number, backed by a vector of entries with
//! pairwise-distinct keys.  It is the engine's representation for device
//! snapshots, per-step transform tables and frame results; its mathematical
//! model is a `Map<LightNumber, V>`, with the entry order available for
//! iteration.

use vstd::prelude::*;

use crate::light::LightNumber;

verus! {

/// A finite map from device number to `V`, with stable entry order.
pub struct DeviceMap<V> {
    entries: Vec<(LightNumber, V)>,
}

/// The map described by a sequence of key/value pairs; later entries win,
/// though a well-formed `DeviceMap` never has two entries with one key.
pub open spec fn map_of<V>(s: Seq<(LightNumber, V)>) -> Map<LightNumber, V>
    decreases s.len(),
{
    if s.len() == 0 {
        Map::empty()
    } else {
        map_of(s.drop_last()).insert(s.last().0, s.last().1)
    }
}

/// Pairwise-distinct keys.
pub open spec fn distinct_keys<V>(s: Seq<(LightNumber, V)>) -> bool {
    forall|i: int, j: int|
        0 <= i < j < s.len() ==> (#[trigger] s[i]).0 != (#[trigger] s[j]).0
}

/// Membership in `map_of(s)` is membership of a key in `s`.
pub proof fn lemma_map_of_contains<V>(s: Seq<(LightNumber, V)>, k: LightNumber)
    ensures
        map_of(s).dom().contains(k) <==> exists|i: int| 0 <= i < s.len() && (#[trigger] s[i]).0 == k,
    decreases s.len(),
{
    if s.len() > 0 {
        lemma_map_of_contains(s.drop_last(), k);
        if map_of(s).dom().contains(k) {
            if s.last().0 != k {
                let i = choose|i: int| 0 <= i < s.drop_last().len() && (#[trigger] s.drop_last()[i]).0 == k;
                assert(s[i].0 == k);
            }
        }
        if exists|i: int| 0 <= i < s.len() && (#[trigger] s[i]).0 == k {
            let i = choose|i: int| 0 <= i < s.len() && (#[trigger] s[i]).0 == k;
            if i < s.len() - 1 {
                assert(s.drop_last()[i].0 == k);
            }
        }
    }
}

/// With distinct keys, each entry gives the map's value at its key.
pub proof fn lemma_map_of_index<V>(s: Seq<(LightNumber, V)>, i: int)
    requires
        distinct_keys(s),
        0 <= i < s.len(),
    ensures
        map_of(s).dom().contains(s[i].0),
        map_of(s)[s[i].0] == s[i].1,
    decreases s.len(),
{
    if i == s.len() - 1 {
        lemma_map_of_contains(s, s[i].0);
    } else {
        assert(distinct_keys(s.drop_last()));
        lemma_map_of_index(s.drop_last(), i);
        assert(s.drop_last()[i] == s[i]);
        assert(s.last().0 != s[i].0);
    }
}

impl<V> DeviceMap<V> {
    /// The entries in insertion order.
    pub closed spec fn entries_seq(&self) -> Seq<(LightNumber, V)> {
        self.entries@
    }

    /// Keys are pairwise distinct; every constructor establishes this and
    /// every method preserves it.
    pub open spec fn wf(&self) -> bool {
        distinct_keys(self.entries_seq())
    }

    /// The map this value represents.
    pub open spec fn to_map(&self) -> Map<LightNumber, V> {
        map_of(self.entries_seq())
    }

    /// An empty map.
    pub fn new() -> (m: DeviceMap<V>)
        ensures
            m.wf(),
            m.entries_seq() == Seq::<(LightNumber, V)>::empty(),
            m.to_map() == Map::<LightNumber, V>::empty(),
    {
        DeviceMap { entries: Vec::new() }
    }

    /// How many devices the map holds.
    pub fn len(&self) -> (n: usize)
        ensures
            n == self.entries_seq().len(),
    {
        self.entries.len()
    }

    /// Whether the map holds no device.
    pub fn is_empty(&self) -> (r: bool)
        ensures
            r == (self.entries_seq().len() == 0),
    {
        self.entries.len() == 0
    }

    /// The key of the entry at `i`.
    pub fn key_at(&self, i: usize) -> (k: LightNumber)
        requires
            i < self.entries_seq().len(),
        ensures
            k == self.entries_seq()[i as int].0,
    {
        self.entries[i].0
    }

    /// The value of the entry at `i`.
    pub fn value_at(&self, i: usize) -> (v: &V)
        requires
            i < self.entries_seq().len(),
        ensures
            *v == self.entries_seq()[i as int].1,
    {
        &self.entries[i].1
    }

    /// Whether `k` is present.
    pub fn contains_key(&self, k: LightNumber) -> (r: bool)
        requires
            self.wf(),
        ensures
            r == self.to_map().dom().contains(k),
    {
        proof {
            lemma_map_of_contains(self.entries_seq(), k);
        }
        let n = self.entries.len();
        for i in 0..n
            invariant
                n == self.entries_seq().len(),
                forall|j: int| 0 <= j < i ==> (#[trigger] self.entries_seq()[j]).0 != k,
        {
            if self.entries[i].0 == k {
                proof {
                    lemma_map_of_contains(self.entries_seq(), k);
                    assert(self.entries_seq()[i as int].0 == k);
                }
                return true;
            }
        }
        false
    }

    /// The value at `k`, when present.
    pub fn get(&self, k: LightNumber) -> (r: Option<&V>)
        requires
            self.wf(),
        ensures
            match r {
                Some(v) => self.to_map().dom().contains(k) && *v == self.to_map()[k],
                None => !self.to_map().dom().contains(k),
            },
    {
        proof {
            lemma_map_of_contains(self.entries_seq(), k);
        }
        let n = self.entries.len();
        for i in 0..n
            invariant
                self.wf(),
                n == self.entries_seq().len(),
                forall|j: int| 0 <= j < i ==> (#[trigger] self.entries_seq()[j]).0 != k,
        {
            if self.entries[i].0 == k {
                proof {
                    lemma_map_of_index(self.entries_seq(), i as int);
                }
                return Some(&self.entries[i].1);
            }
        }
        None
    }

    /// Adds an entry for a key not yet present.
    pub fn push_entry(&mut self, k: LightNumber, v: V)
        requires
            old(self).wf(),
            !old(self).to_map().dom().contains(k),
        ensures
            final(self).wf(),
            final(self).entries_seq() == old(self).entries_seq().push((k, v)),
            final(self).to_map() == old(self).to_map().insert(k, v),
    {
        proof {
            lemma_map_of_contains(self.entries_seq(), k);
        }
        self.entries.push((k, v));
        proof {
            assert(final(self).entries_seq().drop_last() == old(self).entries_seq());
        }
    }

    /// Appends an entry without checking the key: the caller re-establishes
    /// well-formedness itself (used when rebuilding a table whose keys are
    /// known to be distinct only at the end).
    pub(crate) fn entries_push_raw(&mut self, k: LightNumber, v: V)
        ensures
            final(self).entries_seq() == old(self).entries_seq().push((k, v)),
    {
        self.entries.push((k, v));
    }

    /// Inserts `v` at `k`, replacing any value already there.
    pub fn insert(&mut self, k: LightNumber, v: V)
        requires
            old(self).wf(),
        ensures
            final(self).wf(),
            final(self).to_map() == old(self).to_map().insert(k, v),
            final(self).entries_seq().len() == if old(self).to_map().dom().contains(k) {
                old(self).entries_seq().len() as int
            } else {
                old(self).entries_seq().len() + 1 as int
            },
    {
        proof {
            lemma_map_of_contains(self.entries_seq(), k);
        }
        let n = self.entries.len();
        for i in 0..n
            invariant
                self.wf(),
                self == old(self),
                n == self.entries_seq().len(),
                forall|j: int| 0 <= j < i ==> (#[trigger] self.entries_seq()[j]).0 != k,
        {
            if self.entries[i].0 == k {
                self.entries[i] = (k, v);
                proof {
                    assert(self.entries_seq() == old(self).entries_seq().update(
                        i as int,
                        (old(self).entries_seq()[i as int].0, v),
                    ));
                    lemma_set_entry_updates_map(old(self).entries_seq(), i as int, v);
                    lemma_map_of_contains(old(self).entries_seq(), k);
                }
                return;
            }
        }
        self.entries.push((k, v));
        proof {
            assert(final(self).entries_seq().drop_last() == old(self).entries_seq());
        }
    }

    /// The keys, in entry order.
    pub fn keys(&self) -> (ks: Vec<LightNumber>)
        ensures
            ks@.len() == self.entries_seq().len(),
            forall|i: int|
                0 <= i < ks@.len() ==> ks@[i] == (#[trigger] self.entries_seq()[i]).0,
    {
        let n = self.entries.len();
        let mut ks: Vec<LightNumber> = Vec::new();
        for i in 0..n
            invariant
                n == self.entries_seq().len(),
                ks@.len() == i,
                forall|j: int|
                    0 <= j < i ==> ks@[j] == (#[trigger] self.entries_seq()[j]).0,
        {
            ks.push(self.entries[i].0);
        }
        ks
    }
}

/// Replacing entry `i`'s value (keeping its key) updates the map at that key
/// and nothing else.
proof fn lemma_set_entry_updates_map<V>(s: Seq<(LightNumber, V)>, i: int, v: V)
    requires
        distinct_keys(s),
        0 <= i < s.len(),
    ensures
        distinct_keys(s.update(i, (s[i].0, v))),
        map_of(s.update(i, (s[i].0, v))) == map_of(s).insert(s[i].0, v),
    decreases s.len(),
{
    let t = s.update(i, (s[i].0, v));
    assert(distinct_keys(t));
    if i == s.len() - 1 {
        assert(t.drop_last() == s.drop_last());
    } else {
        assert(t.drop_last() == s.drop_last().update(i, (s[i].0, v)));
        assert(distinct_keys(s.drop_last()));
        lemma_set_entry_updates_map(s.drop_last(), i, v);
        assert(s.drop_last()[i] == s[i]);
        assert(t.last() == s.last());
        assert(map_of(t) == map_of(s.drop_last()).insert(s[i].0, v).insert(s.last().0, s.last().1));
        assert(s.last().0 != s[i].0);
        assert(map_of(s.drop_last()).insert(s[i].0, v).insert(s.last().0, s.last().1)
            =~= map_of(s.drop_last()).insert(s.last().0, s.last().1).insert(s[i].0, v));
    }
}

impl<V: Copy> DeviceMap<V> {
    /// A copy of the map, entry for entry.
    pub fn duplicate(&self) -> (m: DeviceMap<V>)
        ensures
            m.entries_seq() == self.entries_seq(),
    {
        let n = self.entries.len();
        let mut entries: Vec<(LightNumber, V)> = Vec::new();
        for i in 0..n
            invariant
                n == self.entries_seq().len(),
                entries@ == self.entries_seq().subrange(0, i as int),
        {
            entries.push(self.entries[i]);
            proof {
                assert(entries@ == self.entries_seq().subrange(0, i + 1));
            }
        }
        proof {
            assert(self.entries_seq().subrange(0, n as int) == self.entries_seq());
        }
        DeviceMap { entries }
    }
}

/// A snapshot of every known device, keyed by device number.
pub type LightCollection = DeviceMap<crate::light::Light>;

} // verus!
