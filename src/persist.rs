//! A key-value record store that tally snapshots are written behind to.

use crate::store::{copy_pairs, pairs_view};
use vstd::hash_map::StringHashMap;
use vstd::prelude::*;

verus! {

/// Why the record store did not serve a request.
#[derive(Clone, Copy, Debug, PartialEq, Eq, Structural)]
pub enum PersistError {
    /// The store is not reachable.
    Unavailable,
}

/// Records keyed by strings, each holding a snapshot of a tally. While the
/// store is unavailable it refuses every read and write.
pub struct KvStore {
    records: StringHashMap<Vec<(String, u64)>>,
    available: bool,
}

impl View for KvStore {
    type V = Map<Seq<char>, Seq<(Seq<char>, u64)>>;

    closed spec fn view(&self) -> Map<Seq<char>, Seq<(Seq<char>, u64)>> {
        Map::new(
            |k: Seq<char>| self.records@.contains_key(k),
            |k: Seq<char>| pairs_view(self.records@[k]@),
        )
    }
}

/// The record that `load_or_default` gives for `key`: the stored snapshot
/// where the store is available and holds one, else an empty one.
pub open spec fn loaded_or_default(
    records: Map<Seq<char>, Seq<(Seq<char>, u64)>>,
    available: bool,
    key: Seq<char>,
) -> Seq<(Seq<char>, u64)> {
    if available && records.contains_key(key) {
        records[key]
    } else {
        Seq::empty()
    }
}

impl KvStore {
    pub closed spec fn is_up(&self) -> bool {
        self.available
    }

    /// An available store with no record.
    pub fn new() -> (r: KvStore)
        ensures
            r@ == Map::<Seq<char>, Seq<(Seq<char>, u64)>>::empty(),
            r.is_up(),
    {
        let r = KvStore { records: StringHashMap::new(), available: true };
        assert(r@ =~= Map::<Seq<char>, Seq<(Seq<char>, u64)>>::empty());
        r
    }

    /// Whether the store serves requests.
    pub fn is_available(&self) -> (r: bool)
        ensures
            r == self.is_up(),
    {
        self.available
    }

    /// Makes the store serve requests, or refuse them.
    pub fn set_available(&mut self, up: bool)
        ensures
            final(self)@ == old(self)@,
            final(self).is_up() == up,
    {
        self.available = up;
    }

    /// Writes `value` under `key`, replacing what was there.
    pub fn save(&mut self, key: &str, value: &Vec<(String, u64)>) -> (r: Result<(), PersistError>)
        ensures
            old(self).is_up() ==> r is Ok && final(self)@ == old(self)@.insert(key@, pairs_view(value@)),
            !old(self).is_up() ==> r == Err::<(), PersistError>(PersistError::Unavailable)
                && final(self)@ == old(self)@,
            final(self).is_up() == old(self).is_up(),
    {
        if !self.available {
            return Err(PersistError::Unavailable);
        }
        let copy = copy_pairs(value);
        self.records.insert(String::from_str(key), copy);
        assert(self@ =~= old(self)@.insert(key@, pairs_view(value@)));
        Ok(())
    }

    /// The record under `key`; `None` where there is none.
    pub fn load(&self, key: &str) -> (r: Result<Option<Vec<(String, u64)>>, PersistError>)
        ensures
            !self.is_up() ==> r == Err::<Option<Vec<(String, u64)>>, PersistError>(
                PersistError::Unavailable,
            ),
            self.is_up() && self@.contains_key(key@) ==> r is Ok && r->Ok_0 is Some && pairs_view(
                r->Ok_0->Some_0@,
            ) == self@[key@],
            self.is_up() && !self@.contains_key(key@) ==> r is Ok && r->Ok_0 is None,
    {
        if !self.available {
            return Err(PersistError::Unavailable);
        }
        match self.records.get(key) {
            Some(v) => Ok(Some(copy_pairs(v))),
            None => Ok(None),
        }
    }
}

/// A snapshot saved under a key to an available store loads back unchanged;
/// a key with no record, or a store that is down, loads the empty snapshot.
pub proof fn lemma_save_then_load(
    records: Map<Seq<char>, Seq<(Seq<char>, u64)>>,
    key: Seq<char>,
    value: Seq<(Seq<char>, u64)>,
)
    ensures
        loaded_or_default(records.insert(key, value), true, key) == value,
        !records.contains_key(key) ==> loaded_or_default(records, true, key) == Seq::<
            (Seq<char>, u64),
        >::empty(),
        loaded_or_default(records, false, key) == Seq::<(Seq<char>, u64)>::empty(),
{
}

} // verus!
