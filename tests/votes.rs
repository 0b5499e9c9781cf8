use ale_bot::config::SharedConfig;
use ale_bot::persist::KvStore;
use ale_bot::secrets::EnvVars;
use ale_bot::store::ScoreStore;
use ale_bot::unranked::{count_message, listing_message, Unranked, VoteError};

fn config() -> SharedConfig {
    let mut env = EnvVars::new();
    env.set("AUTH_ROLE_ID", "11");
    env.set("COHORT_CHANNEL", "22");
    SharedConfig::try_new(&env).unwrap()
}

#[test]
fn votes_in_order_give_expected_tally_and_replies() {
    let cfg = config();
    let kv = KvStore::new();
    let mut u = Unranked::new(&cfg, &kv);
    for c in ["a", "b", "a", "a"] {
        u.vote(c).unwrap();
    }
    let mut snap = u.snapshot();
    snap.sort();
    assert_eq!(snap, vec![("a".to_string(), 3), ("b".to_string(), 1)]);
    assert_eq!(u.get_votes(Some("a")), "3 people have voted for a");
    assert_eq!(u.get_votes(Some("c")), "Nobody has voted for c yet");
}

#[test]
fn many_votes_for_one_choice_are_all_counted() {
    let cfg = config();
    let kv = KvStore::new();
    let mut u = Unranked::new(&cfg, &kv);
    for i in 1..=250u64 {
        assert_eq!(u.vote("x"), Ok(i));
    }
    assert_eq!(u.votes_for("x"), 250);
    assert_eq!(u.get_votes(Some("x")), "250 people have voted for x");
}

#[test]
fn never_voted_choice_gets_nobody_reply() {
    let cfg = config();
    let kv = KvStore::new();
    let mut u = Unranked::new(&cfg, &kv);
    assert_eq!(u.get_votes(Some("zed")), "Nobody has voted for zed yet");
    u.vote("other").unwrap();
    assert_eq!(u.get_votes(Some("zed")), "Nobody has voted for zed yet");
    assert_eq!(u.votes_for("zed"), 0);
}

#[test]
fn empty_store_lists_nothing() {
    let s = ScoreStore::new();
    assert!(s.snapshot().is_empty());
    assert!(s.is_empty());
    assert_eq!(listing_message(&Vec::new()), "Nobody has voted for anything yet :(");
    let cfg = config();
    let kv = KvStore::new();
    let u = Unranked::new(&cfg, &kv);
    assert_eq!(u.get_votes(None), "Nobody has voted for anything yet :(");
}

#[test]
fn listing_shows_every_choice() {
    let cfg = config();
    let kv = KvStore::new();
    let mut u = Unranked::new(&cfg, &kv);
    u.vote("a").unwrap();
    u.vote("b").unwrap();
    u.vote("a").unwrap();
    assert_eq!(u.get_votes(None), "a: 2 votes\nb: 1 votes");
}

#[test]
fn new_event_forgets_votes() {
    let cfg = config();
    let kv = KvStore::new();
    let mut u = Unranked::new(&cfg, &kv);
    u.vote("a").unwrap();
    u.vote("a").unwrap();
    u.vote("b").unwrap();
    u.start_new_event();
    assert_eq!(u.get_votes(Some("a")), "Nobody has voted for a yet");
    assert_eq!(u.get_votes(Some("b")), "Nobody has voted for b yet");
    assert_eq!(u.vote("a"), Ok(1));
}

#[test]
fn empty_choice_is_turned_down() {
    let cfg = config();
    let kv = KvStore::new();
    let mut u = Unranked::new(&cfg, &kv);
    assert_eq!(u.vote(""), Err(VoteError::EmptyChoice));
    assert!(u.snapshot().is_empty());
}

#[test]
fn count_messages() {
    assert_eq!(count_message("a", 0), "Nobody has voted for a yet");
    assert_eq!(count_message("a", 1), "1 people have voted for a");
    assert_eq!(count_message("Go", 1000), "1000 people have voted for Go");
}

#[test]
fn store_counts_and_reads() {
    let mut s = ScoreStore::new();
    assert_eq!(s.get("k"), 0);
    assert_eq!(s.increment("k"), 1);
    assert_eq!(s.increment("k"), 2);
    assert_eq!(s.increment("K"), 1);
    assert_eq!(s.get("k"), 2);
    assert_eq!(s.get("K"), 1);
    s.clear();
    assert!(s.is_empty());
}

#[test]
fn store_restores_from_snapshot() {
    let entries = vec![
        ("a".to_string(), 2),
        ("b".to_string(), 0),
        ("c".to_string(), 5),
        ("a".to_string(), 7),
    ];
    let s = ScoreStore::from_snapshot(&entries);
    assert_eq!(s.get("a"), 7);
    assert_eq!(s.get("b"), 0);
    assert_eq!(s.get("c"), 5);
    assert_eq!(s.snapshot(), vec![("a".to_string(), 7), ("c".to_string(), 5)]);
}
