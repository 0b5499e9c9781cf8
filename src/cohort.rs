//! Accountability cohorts: members register interest in the next cohort.

use crate::config::SharedConfig;
use crate::persist::{loaded_or_default, KvStore};
use crate::store::{all_positive, lemma_restore_listing, lists, pairs_view, restored, ScoreStore};
use crate::unranked::VoteError;
use vstd::prelude::*;

verus! {

/// The members interested in the next cohort, and the configuration it runs
/// under.
pub struct Cohort<'a> {
    interest: ScoreStore,
    shared_config: &'a SharedConfig,
}

impl<'a> View for Cohort<'a> {
    type V = Map<Seq<char>, u64>;

    closed spec fn view(&self) -> Map<Seq<char>, u64> {
        self.interest@
    }
}

impl<'a> Cohort<'a> {
    pub closed spec fn wf(&self) -> bool {
        self.interest.wf()
    }

    /// The members in the order the store keeps them.
    pub closed spec fn listing(&self) -> Seq<(Seq<char>, u64)> {
        self.interest.listing()
    }

    /// What a well-formed cohort promises of its listing and its counts.
    pub proof fn lemma_wf(&self)
        requires
            self.wf(),
        ensures
            lists(self.listing(), self@),
            all_positive(self@),
    {
        self.interest.lemma_wf();
    }

    /// The key that the members are written under in the record store.
    pub fn record_key() -> (r: &'static str)
        ensures
            r@ == "cohort_interest"@,
    {
        "cohort_interest"
    }

    /// The members that the record store holds, or none where it is down or
    /// holds no record.
    pub fn new(shared_config: &'a SharedConfig, backend: &KvStore) -> (r: Cohort<'a>)
        ensures
            r.wf(),
            r@ == restored(loaded_or_default(backend@, backend.is_up(), "cohort_interest"@)),
    {
        let loaded = shared_config.load_or_default_kv(backend, Cohort::record_key());
        Cohort { interest: ScoreStore::from_snapshot(&loaded), shared_config }
    }

    /// Registers `member`; true where the member was not registered yet. The
    /// empty name is turned down and changes nothing.
    pub fn register(&mut self, member: &str) -> (r: Result<bool, VoteError>)
        requires
            old(self).wf(),
        ensures
            final(self).wf(),
            member@.len() == 0 ==> r == Err::<bool, VoteError>(VoteError::EmptyChoice) && final(self)@
                == old(self)@,
            member@.len() > 0 && old(self)@.contains_key(member@) ==> r == Ok::<bool, VoteError>(
                false,
            ) && final(self)@ == old(self)@,
            member@.len() > 0 && !old(self)@.contains_key(member@) ==> r == Ok::<bool, VoteError>(
                true,
            ) && final(self)@ == old(self)@.insert(member@, 1),
    {
        if member.unicode_len() == 0 {
            return Err(VoteError::EmptyChoice);
        }
        proof {
            self.interest.lemma_wf();
        }
        if self.interest.get(member) > 0 {
            return Ok(false);
        }
        self.interest.increment(member);
        Ok(true)
    }

    /// Whether `member` is registered.
    pub fn is_registered(&self, member: &str) -> (r: bool)
        requires
            self.wf(),
        ensures
            r == self@.contains_key(member@),
    {
        proof {
            self.interest.lemma_wf();
        }
        self.interest.get(member) > 0
    }

    /// A copy of every registration.
    pub fn snapshot(&self) -> (r: Vec<(String, u64)>)
        requires
            self.wf(),
        ensures
            pairs_view(r@) == self.listing(),
            lists(pairs_view(r@), self@),
    {
        self.interest.snapshot()
    }

    /// Clears every registration for a new event.
    pub fn start_new_event(&mut self)
        ensures
            final(self).wf(),
            final(self)@ == Map::<Seq<char>, u64>::empty(),
    {
        self.interest.clear();
    }

    /// Writes the current registrations to the record store.
    pub fn save(&self, backend: &mut KvStore)
        requires
            self.wf(),
        ensures
            final(backend).is_up() == old(backend).is_up(),
            old(backend).is_up() ==> final(backend)@ == old(backend)@.insert(
                "cohort_interest"@,
                self.listing(),
            ),
            !old(backend).is_up() ==> final(backend)@ == old(backend)@,
    {
        let snapshot = self.interest.snapshot();
        self.shared_config.save_kv(backend, Cohort::record_key(), &snapshot);
    }
}

/// Registrations written to the record store come back unchanged when the
/// cohort is rebuilt from what was written.
pub proof fn lemma_registrations_survive_reload(c: Cohort)
    requires
        c.wf(),
    ensures
        restored(c.listing()) == c@,
{
    c.lemma_wf();
    lemma_restore_listing(c.listing(), c@);
}

} // verus!
