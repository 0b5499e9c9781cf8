use ale_bot::cohort::Cohort;
use ale_bot::config::SharedConfig;
use ale_bot::persist::{KvStore, PersistError};
use ale_bot::secrets::EnvVars;
use ale_bot::unranked::Unranked;

fn config() -> SharedConfig {
    let mut env = EnvVars::new();
    env.set("AUTH_ROLE_ID", "11");
    env.set("COHORT_CHANNEL", "22");
    SharedConfig::try_new(&env).unwrap()
}

#[test]
fn saved_snapshot_loads_back() {
    let cfg = config();
    let mut kv = KvStore::new();
    let snap = vec![("a".to_string(), 3), ("b".to_string(), 1)];
    cfg.save_kv(&mut kv, "scores", &snap);
    assert_eq!(cfg.load_or_default_kv(&kv, "scores"), snap);
    let newer = vec![("c".to_string(), 9)];
    cfg.save_kv(&mut kv, "scores", &newer);
    assert_eq!(cfg.load_or_default_kv(&kv, "scores"), newer);
}

#[test]
fn missing_record_loads_default() {
    let cfg = config();
    let kv = KvStore::new();
    assert!(cfg.load_or_default_kv(&kv, "nothing").is_empty());
    assert_eq!(kv.load("nothing"), Ok(None));
}

#[test]
fn unavailable_store_loads_default_and_drops_writes() {
    let cfg = config();
    let mut kv = KvStore::new();
    cfg.save_kv(&mut kv, "k", &vec![("a".to_string(), 1)]);
    kv.set_available(false);
    assert!(!kv.is_available());
    assert!(cfg.load_or_default_kv(&kv, "k").is_empty());
    assert_eq!(kv.load("k"), Err(PersistError::Unavailable));
    assert_eq!(kv.save("k", &vec![("b".to_string(), 2)]), Err(PersistError::Unavailable));
    cfg.save_kv(&mut kv, "k", &vec![("b".to_string(), 2)]);
    kv.set_available(true);
    assert_eq!(cfg.load_or_default_kv(&kv, "k"), vec![("a".to_string(), 1)]);
}

#[test]
fn votes_survive_a_reload() {
    let cfg = config();
    let mut kv = KvStore::new();
    let mut u = Unranked::new(&cfg, &kv);
    u.vote("a").unwrap();
    u.vote("b").unwrap();
    u.vote("a").unwrap();
    u.save(&mut kv);
    let again = Unranked::new(&cfg, &kv);
    assert_eq!(again.votes_for("a"), 2);
    assert_eq!(again.votes_for("b"), 1);
    assert_eq!(again.snapshot(), u.snapshot());
    assert_eq!(Unranked::record_key(), "unranked_scores");
}

#[test]
fn cohort_registration() {
    let cfg = config();
    let mut kv = KvStore::new();
    let mut c = Cohort::new(&cfg, &kv);
    assert_eq!(c.register("ann"), Ok(true));
    assert_eq!(c.register("ann"), Ok(false));
    assert_eq!(c.register("bob"), Ok(true));
    assert!(c.register("").is_err());
    assert!(c.is_registered("ann"));
    assert!(!c.is_registered("cy"));
    c.save(&mut kv);
    let again = Cohort::new(&cfg, &kv);
    assert!(again.is_registered("bob"));
    assert_eq!(again.snapshot().len(), 2);
    c.start_new_event();
    assert!(!c.is_registered("ann"));
    assert_eq!(Cohort::record_key(), "cohort_interest");
}

#[test]
fn cohort_snapshot_is_a_copy() {
    let cfg = config();
    let kv = KvStore::new();
    let mut c = Cohort::new(&cfg, &kv);
    assert!(c.snapshot().is_empty());
    c.register("ann").unwrap();
    let before = c.snapshot();
    c.start_new_event();
    assert_eq!(before, vec![("ann".to_string(), 1)]);
    assert!(c.snapshot().is_empty());
}
