//! The unranked challenge: votes for choices, counted in a tally that is
//! written behind to the record store after each change.

use crate::config::SharedConfig;
use crate::persist::{loaded_or_default, KvStore};
use crate::store::{
    all_positive, bumped, count_of, lemma_restore_listing, lists, pairs_view, restored, ScoreStore,
};
use crate::text::{decimal, push_decimal};
use vstd::prelude::*;

verus! {

/// Why a domain operation was turned down.
#[derive(Clone, Copy, Debug, PartialEq, Eq, Structural)]
pub enum VoteError {
    /// The choice is the empty string.
    EmptyChoice,
}

/// The reply to a question about one choice that has `n` votes.
pub open spec fn count_reply(choice: Seq<char>, n: nat) -> Seq<char> {
    if n == 0 {
        "Nobody has voted for "@ + choice + " yet"@
    } else {
        decimal(n) + " people have voted for "@ + choice
    }
}

/// One line of the listing of all votes.
pub open spec fn listing_line(entry: (Seq<char>, u64)) -> Seq<char> {
    entry.0 + ": "@ + decimal(entry.1 as nat) + " votes"@
}

/// The lines of `s`, one per entry, separated by line breaks.
pub open spec fn listing_lines(s: Seq<(Seq<char>, u64)>) -> Seq<char>
    decreases s.len(),
{
    if s.len() == 0 {
        Seq::empty()
    } else if s.len() == 1 {
        listing_line(s[0])
    } else {
        listing_lines(s.drop_last()) + "\n"@ + listing_line(s.last())
    }
}

/// The reply that lists every choice; a fixed message where there is none.
pub open spec fn listing_reply(s: Seq<(Seq<char>, u64)>) -> Seq<char> {
    if s.len() == 0 {
        "Nobody has voted for anything yet :("@
    } else {
        listing_lines(s)
    }
}

/// The tally after `n` votes for `choice`, starting from `m`.
pub open spec fn votes_applied(m: Map<Seq<char>, u64>, choice: Seq<char>, n: nat) -> Map<
    Seq<char>,
    u64,
>
    decreases n,
{
    if n == 0 {
        m
    } else {
        bumped(votes_applied(m, choice, (n - 1) as nat), choice)
    }
}

/// The reply about one choice.
pub fn count_message(choice: &str, n: u64) -> (r: String)
    ensures
        r@ == count_reply(choice@, n as nat),
{
    if n == 0 {
        let mut r = String::from_str("Nobody has voted for ");
        r.append(choice);
        r.append(" yet");
        r
    } else {
        let mut r = String::new();
        push_decimal(&mut r, n);
        r.append(" people have voted for ");
        r.append(choice);
        assert(r@ =~= count_reply(choice@, n as nat));
        r
    }
}

/// The reply that lists `entries`.
pub fn listing_message(entries: &Vec<(String, u64)>) -> (r: String)
    ensures
        r@ == listing_reply(pairs_view(entries@)),
{
    if entries.len() == 0 {
        return String::from_str("Nobody has voted for anything yet :(");
    }
    let ghost s = pairs_view(entries@);
    let mut r = String::new();
    let mut i: usize = 0;
    while i < entries.len()
        invariant
            i <= entries@.len(),
            s == pairs_view(entries@),
            r@ == listing_lines(s.take(i as int)),
        decreases entries@.len() - i,
    {
        let ghost before = r@;
        if i > 0 {
            r.append("\n");
        }
        r.append(entries[i].0.as_str());
        r.append(": ");
        push_decimal(&mut r, entries[i].1);
        r.append(" votes");
        proof {
            let t = s.take(i + 1);
            assert(t.drop_last() =~= s.take(i as int));
            assert(t.last() == s[i as int]);
            if i == 0 {
                assert(before =~= Seq::<char>::empty());
                assert(r@ =~= listing_line(t[0]));
            } else {
                assert(r@ =~= before + "\n"@ + listing_line(t.last()));
            }
        }
        i = i + 1;
    }
    assert(s.take(i as int) =~= s);
    r
}

/// The unranked challenge's votes, and the configuration it runs under.
pub struct Unranked<'a> {
    scores: ScoreStore,
    shared_config: &'a SharedConfig,
}

impl<'a> View for Unranked<'a> {
    type V = Map<Seq<char>, u64>;

    closed spec fn view(&self) -> Map<Seq<char>, u64> {
        self.scores@
    }
}

impl<'a> Unranked<'a> {
    pub closed spec fn wf(&self) -> bool {
        self.scores.wf()
    }

    /// The votes in the order the listing shows them.
    pub closed spec fn listing(&self) -> Seq<(Seq<char>, u64)> {
        self.scores.listing()
    }

    /// What a well-formed tally promises of its listing.
    pub proof fn lemma_wf(&self)
        requires
            self.wf(),
        ensures
            lists(self.listing(), self@),
            all_positive(self@),
    {
        self.scores.lemma_wf();
    }

    /// The key that the votes are written under in the record store.
    pub fn record_key() -> (r: &'static str)
        ensures
            r@ == "unranked_scores"@,
    {
        "unranked_scores"
    }

    /// The votes that the record store holds, or none where it is down or
    /// holds no record.
    pub fn new(shared_config: &'a SharedConfig, backend: &KvStore) -> (r: Unranked<'a>)
        ensures
            r.wf(),
            r@ == restored(loaded_or_default(backend@, backend.is_up(), "unranked_scores"@)),
    {
        let loaded = shared_config.load_or_default_kv(backend, Unranked::record_key());
        Unranked { scores: ScoreStore::from_snapshot(&loaded), shared_config }
    }

    /// Votes once for `choice` and returns its new count. The empty choice is
    /// turned down and changes nothing.
    pub fn vote(&mut self, choice: &str) -> (r: Result<u64, VoteError>)
        requires
            old(self).wf(),
            count_of(old(self)@, choice@) < u64::MAX,
        ensures
            final(self).wf(),
            choice@.len() == 0 ==> r == Err::<u64, VoteError>(VoteError::EmptyChoice) && final(self)@
                == old(self)@,
            choice@.len() > 0 ==> r == Ok::<u64, VoteError>((count_of(old(self)@, choice@) + 1) as u64)
                && final(self)@ == bumped(old(self)@, choice@),
    {
        if choice.unicode_len() == 0 {
            return Err(VoteError::EmptyChoice);
        }
        Ok(self.scores.increment(choice))
    }

    /// The number of votes for `choice`.
    pub fn votes_for(&self, choice: &str) -> (r: u64)
        requires
            self.wf(),
        ensures
            r == count_of(self@, choice@),
    {
        self.scores.get(choice)
    }

    /// A copy of every vote count.
    pub fn snapshot(&self) -> (r: Vec<(String, u64)>)
        requires
            self.wf(),
        ensures
            pairs_view(r@) == self.listing(),
            lists(pairs_view(r@), self@),
    {
        self.scores.snapshot()
    }

    /// The reply about `choice`, or the listing of all votes where no choice
    /// is given.
    pub fn get_votes(&self, choice: Option<&str>) -> (r: String)
        requires
            self.wf(),
        ensures
            match choice {
                Some(c) => r@ == count_reply(c@, count_of(self@, c@)),
                None => r@ == listing_reply(self.listing()),
            },
    {
        match choice {
            Some(c) => count_message(c, self.scores.get(c)),
            None => listing_message(&self.scores.snapshot()),
        }
    }

    /// Clears every vote for a new event.
    pub fn start_new_event(&mut self)
        ensures
            final(self).wf(),
            final(self)@ == Map::<Seq<char>, u64>::empty(),
    {
        self.scores.clear();
    }

    /// Writes the current votes to the record store.
    pub fn save(&self, backend: &mut KvStore)
        requires
            self.wf(),
        ensures
            final(backend).is_up() == old(backend).is_up(),
            old(backend).is_up() ==> final(backend)@ == old(backend)@.insert(
                "unranked_scores"@,
                self.listing(),
            ),
            !old(backend).is_up() ==> final(backend)@ == old(backend)@,
    {
        let snapshot = self.scores.snapshot();
        self.shared_config.save_kv(backend, Unranked::record_key(), &snapshot);
    }
}

/// Votes are never lost: `n` votes for one choice raise its count by exactly
/// `n`, whatever the tally held before.
pub proof fn lemma_votes_accumulate(m: Map<Seq<char>, u64>, choice: Seq<char>, n: nat)
    requires
        count_of(m, choice) + n <= u64::MAX,
    ensures
        count_of(votes_applied(m, choice, n), choice) == count_of(m, choice) + n,
    decreases n,
{
    if n > 0 {
        lemma_votes_accumulate(m, choice, (n - 1) as nat);
    }
}

/// On a fresh tally, `n` votes for one choice leave it at exactly `n`, and
/// the reply about it says so.
pub proof fn lemma_votes_not_lost(choice: Seq<char>, n: nat)
    requires
        0 < n <= u64::MAX,
    ensures
        count_of(votes_applied(Map::empty(), choice, n), choice) == n,
        count_reply(choice, count_of(votes_applied(Map::empty(), choice, n), choice)) == decimal(n)
            + " people have voted for "@ + choice,
{
    lemma_votes_accumulate(Map::empty(), choice, n);
}

/// A choice that was never voted for gets the "nobody has voted" reply.
pub proof fn lemma_unvoted_reply(m: Map<Seq<char>, u64>, choice: Seq<char>)
    requires
        !m.contains_key(choice),
    ensures
        count_reply(choice, count_of(m, choice)) == "Nobody has voted for "@ + choice + " yet"@,
{
}

/// A listing of the empty tally is empty, and its reply is the "nothing yet"
/// message.
pub proof fn lemma_empty_listing(s: Seq<(Seq<char>, u64)>)
    requires
        lists(s, Map::empty()),
    ensures
        s.len() == 0,
        listing_reply(s) == "Nobody has voted for anything yet :("@,
{
    if s.len() > 0 {
        assert(Map::<Seq<char>, u64>::empty().contains_key(s[0].0));
    }
}

/// After a new event starts, every choice reads as unvoted, and the next vote
/// for any choice counts one.
pub proof fn lemma_new_event(choice: Seq<char>)
    ensures
        count_reply(choice, count_of(Map::empty(), choice)) == "Nobody has voted for "@ + choice
            + " yet"@,
        count_of(bumped(Map::empty(), choice), choice) == 1,
{
}

/// Votes written to the record store come back unchanged when the tally is
/// rebuilt from what was written.
pub proof fn lemma_votes_survive_reload(u: Unranked)
    requires
        u.wf(),
    ensures
        restored(u.listing()) == u@,
{
    u.scores.lemma_wf();
    lemma_restore_listing(u.listing(), u@);
}

} // verus!
