//! A tally of counters keyed by strings.

use vstd::prelude::*;

verus! {

/// The plain view of a listing of (key, count) pairs.
pub open spec fn pairs_view(v: Seq<(String, u64)>) -> Seq<(Seq<char>, u64)> {
    v.map_values(|p: (String, u64)| (p.0@, p.1))
}

/// The count that a tally holds for `k`: zero for a key never counted.
pub open spec fn count_of(m: Map<Seq<char>, u64>, k: Seq<char>) -> nat {
    if m.contains_key(k) {
        m[k] as nat
    } else {
        0
    }
}

/// The tally `m` after one more count for `k`.
pub open spec fn bumped(m: Map<Seq<char>, u64>, k: Seq<char>) -> Map<Seq<char>, u64> {
    m.insert(k, (count_of(m, k) + 1) as u64)
}

/// No key of the tally stands at zero.
pub open spec fn all_positive(m: Map<Seq<char>, u64>) -> bool {
    forall|k: Seq<char>| #[trigger] m.contains_key(k) ==> m[k] > 0
}

/// `entries` lists the tally `m` exactly: every key once, with its count.
pub open spec fn lists(entries: Seq<(Seq<char>, u64)>, m: Map<Seq<char>, u64>) -> bool {
    &&& forall|i: int|
        0 <= i < entries.len() ==> m.contains_key(#[trigger] entries[i].0) && m[entries[i].0]
            == entries[i].1
    &&& forall|k: Seq<char>|
        #[trigger] m.contains_key(k) ==> exists|i: int| 0 <= i < entries.len() && entries[i].0 == k
    &&& forall|i: int, j: int| 0 <= i < j < entries.len() ==> entries[i].0 != entries[j].0
}

/// The tally that a listing restores to: entries are applied in order, a
/// later entry of a key replacing an earlier one, and zero counts are skipped.
pub open spec fn restored(s: Seq<(Seq<char>, u64)>) -> Map<Seq<char>, u64>
    decreases s.len(),
{
    if s.len() == 0 {
        Map::empty()
    } else {
        let m = restored(s.drop_last());
        if s.last().1 == 0 {
            m
        } else {
            m.insert(s.last().0, s.last().1)
        }
    }
}

/// Counters keyed by strings. A key is present only once it has been counted;
/// reading an absent key gives zero.
///
/// The entries are kept in a `Vec`, in the order their keys were first
/// counted, beside a ghost map of the counts: the store must hand out every
/// entry, and vstd's `StringHashMap` offers lookups but no way to enumerate.
pub struct ScoreStore {
    entries: Vec<(String, u64)>,
    tally: Ghost<Map<Seq<char>, u64>>,
}

impl View for ScoreStore {
    type V = Map<Seq<char>, u64>;

    closed spec fn view(&self) -> Map<Seq<char>, u64> {
        self.tally@
    }
}

impl ScoreStore {
    /// The entries in the order the store keeps them.
    pub closed spec fn listing(&self) -> Seq<(Seq<char>, u64)> {
        pairs_view(self.entries@)
    }

    pub closed spec fn wf(&self) -> bool {
        &&& lists(self.listing(), self.tally@)
        &&& all_positive(self.tally@)
    }

    /// What a well-formed store promises of its listing and its counts.
    pub proof fn lemma_wf(&self)
        requires
            self.wf(),
        ensures
            lists(self.listing(), self@),
            all_positive(self@),
    {
    }

    /// An empty store.
    pub fn new() -> (r: ScoreStore)
        ensures
            r.wf(),
            r@ == Map::<Seq<char>, u64>::empty(),
    {
        ScoreStore { entries: Vec::new(), tally: Ghost(Map::empty()) }
    }

    fn find(&self, key: &String) -> (r: Option<usize>)
        requires
            self.wf(),
        ensures
            match r {
                Some(i) => i < self.entries@.len() && self.listing()[i as int].0 == key@,
                None => !self@.contains_key(key@),
            },
    {
        let mut i: usize = 0;
        while i < self.entries.len()
            invariant
                self.wf(),
                i <= self.entries@.len(),
                forall|j: int| 0 <= j < i ==> self.listing()[j].0 != key@,
            decreases self.entries@.len() - i,
        {
            if self.entries[i].0 == *key {
                return Some(i);
            }
            i = i + 1;
        }
        None
    }

    /// Sets the count of `key`, which must be positive.
    fn put(&mut self, key: &String, count: u64)
        requires
            old(self).wf(),
            count > 0,
        ensures
            final(self).wf(),
            final(self)@ == old(self)@.insert(key@, count),
    {
        let ghost m = self.tally@.insert(key@, count);
        match self.find(key) {
            Some(i) => {
                self.entries.set(i, (key.clone(), count));
                proof {
                    let s = self.listing();
                    assert forall|j: int| 0 <= j < s.len() implies m.contains_key(#[trigger] s[j].0)
                        && m[s[j].0] == s[j].1 by {
                        if j != i {
                            assert(s[j] == old(self).listing()[j]);
                        }
                    }
                    assert forall|k: Seq<char>| #[trigger] m.contains_key(k) implies exists|j: int|
                        0 <= j < s.len() && s[j].0 == k by {
                        if k != key@ {
                            let j = choose|j: int|
                                0 <= j < old(self).listing().len() && old(self).listing()[j].0 == k;
                            assert(s[j].0 == k);
                        } else {
                            assert(s[i as int].0 == k);
                        }
                    }
                    assert forall|a: int, b: int| 0 <= a < b < s.len() implies s[a].0 != s[b].0 by {
                        assert(old(self).listing()[a].0 != old(self).listing()[b].0);
                    }
                }
            },
            None => {
                self.entries.push((key.clone(), count));
                proof {
                    let s = self.listing();
                    let n = old(self).listing().len() as int;
                    assert forall|j: int| 0 <= j < s.len() implies m.contains_key(#[trigger] s[j].0)
                        && m[s[j].0] == s[j].1 by {
                        if j < n {
                            assert(s[j] == old(self).listing()[j]);
                        }
                    }
                    assert forall|k: Seq<char>| #[trigger] m.contains_key(k) implies exists|j: int|
                        0 <= j < s.len() && s[j].0 == k by {
                        if k != key@ {
                            let j = choose|j: int|
                                0 <= j < old(self).listing().len() && old(self).listing()[j].0 == k;
                            assert(s[j].0 == k);
                        } else {
                            assert(s[n].0 == k);
                        }
                    }
                    assert forall|a: int, b: int| 0 <= a < b < s.len() implies s[a].0 != s[b].0 by {
                        if b < n {
                            assert(old(self).listing()[a].0 != old(self).listing()[b].0);
                        } else {
                            assert(s[a] == old(self).listing()[a]);
                            assert(old(self)@.contains_key(s[a].0));
                        }
                    }
                }
            },
        }
        self.tally = Ghost(m);
    }

    /// Adds one to the count of `key`, creating it at one, and returns the
    /// new count.
    pub fn increment(&mut self, key: &str) -> (r: u64)
        requires
            old(self).wf(),
            count_of(old(self)@, key@) < u64::MAX,
        ensures
            final(self).wf(),
            final(self)@ == bumped(old(self)@, key@),
            r == count_of(old(self)@, key@) + 1,
            r == count_of(final(self)@, key@),
    {
        let k = String::from_str(key);
        let r = match self.find(&k) {
            Some(i) => {
                proof {
                    let s = self.listing();
                    assert(s[i as int].0 == key@);
                }
                self.entries[i].1 + 1
            },
            None => 1,
        };
        self.put(&k, r);
        r
    }

    /// The count of `key`; zero if it was never counted.
    pub fn get(&self, key: &str) -> (r: u64)
        requires
            self.wf(),
        ensures
            r == count_of(self@, key@),
    {
        let k = String::from_str(key);
        match self.find(&k) {
            Some(i) => {
                proof {
                    let s = self.listing();
                    assert(s[i as int].0 == key@);
                }
                self.entries[i].1
            },
            None => 0,
        }
    }

    /// True when no key has been counted.
    pub fn is_empty(&self) -> (r: bool)
        requires
            self.wf(),
        ensures
            r == (self@ == Map::<Seq<char>, u64>::empty()),
    {
        proof {
            if self.entries@.len() > 0 {
                let k = self.listing()[0].0;
                assert(self@.contains_key(k));
                assert(!Map::<Seq<char>, u64>::empty().contains_key(k));
            } else {
                assert(self@ =~= Map::<Seq<char>, u64>::empty());
            }
        }
        self.entries.len() == 0
    }

    /// A copy of every entry, in the store's order.
    pub fn snapshot(&self) -> (r: Vec<(String, u64)>)
        requires
            self.wf(),
        ensures
            pairs_view(r@) == self.listing(),
            lists(pairs_view(r@), self@),
    {
        copy_pairs(&self.entries)
    }

    /// Forgets every count.
    pub fn clear(&mut self)
        ensures
            final(self).wf(),
            final(self)@ == Map::<Seq<char>, u64>::empty(),
    {
        self.entries = Vec::new();
        self.tally = Ghost(Map::empty());
    }

    /// A store holding what `entries` lists, applied in order: a later entry
    /// of a key replaces an earlier one, and zero counts are skipped.
    pub fn from_snapshot(entries: &Vec<(String, u64)>) -> (r: ScoreStore)
        ensures
            r.wf(),
            r@ == restored(pairs_view(entries@)),
    {
        let mut store = ScoreStore::new();
        let mut i: usize = 0;
        while i < entries.len()
            invariant
                i <= entries@.len(),
                store.wf(),
                store@ == restored(pairs_view(entries@).take(i as int)),
            decreases entries@.len() - i,
        {
            let ghost s = pairs_view(entries@).take(i as int + 1);
            assert(s.drop_last() =~= pairs_view(entries@).take(i as int));
            if entries[i].1 > 0 {
                store.put(&entries[i].0, entries[i].1);
            }
            i = i + 1;
        }
        assert(pairs_view(entries@).take(i as int) =~= pairs_view(entries@));
        store
    }
}

/// A copy of a listing of (key, count) pairs.
pub fn copy_pairs(v: &Vec<(String, u64)>) -> (r: Vec<(String, u64)>)
    ensures
        pairs_view(r@) == pairs_view(v@),
{
    let mut r: Vec<(String, u64)> = Vec::new();
    let mut i: usize = 0;
    while i < v.len()
        invariant
            i <= v@.len(),
            r@.len() == i,
            pairs_view(r@) =~= pairs_view(v@).take(i as int),
        decreases v@.len() - i,
    {
        let k = v[i].0.clone();
        let ghost before = r@;
        r.push((k, v[i].1));
        assert(r@ == before.push((k, v@[i as int].1)));
        assert(pairs_view(r@)[i as int] == pairs_view(v@)[i as int]);
        i = i + 1;
        assert(pairs_view(r@) =~= pairs_view(v@).take(i as int));
    }
    assert(pairs_view(v@).take(i as int) =~= pairs_view(v@));
    r
}

/// A listing of a tally with no zero count restores to that tally.
pub proof fn lemma_restore_listing(s: Seq<(Seq<char>, u64)>, m: Map<Seq<char>, u64>)
    requires
        lists(s, m),
        all_positive(m),
    ensures
        restored(s) == m,
    decreases s.len(),
{
    if s.len() == 0 {
        assert(m.dom() =~= Set::<Seq<char>>::empty());
        assert(m =~= Map::<Seq<char>, u64>::empty());
    } else {
        let k = s.last().0;
        let rest = s.drop_last();
        let mk = m.remove(k);
        assert forall|i: int| 0 <= i < rest.len() implies mk.contains_key(#[trigger] rest[i].0)
            && mk[rest[i].0] == rest[i].1 by {
            assert(rest[i] == s[i]);
            assert(s[i].0 != s[s.len() - 1].0);
        }
        assert forall|k2: Seq<char>| #[trigger] mk.contains_key(k2) implies exists|i: int|
            0 <= i < rest.len() && rest[i].0 == k2 by {
            assert(m.contains_key(k2));
            let i = choose|i: int| 0 <= i < s.len() && s[i].0 == k2;
            assert(i != s.len() - 1);
            assert(rest[i].0 == k2);
        }
        assert forall|a: int, b: int| 0 <= a < b < rest.len() implies rest[a].0 != rest[b].0 by {
            assert(s[a].0 != s[b].0);
        }
        lemma_restore_listing(rest, mk);
        assert(m.contains_key(k));
        assert(restored(s) =~= m);
    }
}

} // verus!
