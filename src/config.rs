//! The process configuration: read once at startup, then shared read-only.

use crate::persist::{loaded_or_default, KvStore};
use crate::secrets::{env_lookup, key_id, ConfigError, EnvVars, KeyName};
use crate::store::pairs_view;
use crate::text::{decimal, id_value, parse_id};
use std::time::Instant;
use vstd::prelude::*;

verus! {

#[verifier::external_type_specification]
#[verifier::external_body]
pub struct ExInstant(Instant);

/// Relies on `Instant::now`: a reading of the monotonic clock, of which
/// nothing is promised.
pub assume_specification[ Instant::now ]() -> Instant;

/// A duration of `micros` microseconds split into days, hours, minutes,
/// seconds, milliseconds and microseconds, each with its unit.
pub open spec fn time_parts(micros: nat) -> Seq<(nat, Seq<char>)> {
    seq![
        (micros / 86_400_000_000, "d"@),
        (micros % 86_400_000_000 / 3_600_000_000, "h"@),
        (micros % 3_600_000_000 / 60_000_000, "m"@),
        (micros % 60_000_000 / 1_000_000, "s"@),
        (micros % 1_000_000 / 1_000, "ms"@),
        (micros % 1_000, "\u{3bc}s"@),
    ]
}

/// The parts that are not zero, each as its number followed by its unit,
/// joined by commas.
pub open spec fn joined_parts(parts: Seq<(nat, Seq<char>)>) -> Seq<char>
    decreases parts.len(),
{
    if parts.len() == 0 {
        Seq::empty()
    } else {
        let rest = joined_parts(parts.drop_last());
        let p = parts.last();
        if p.0 == 0 {
            rest
        } else if rest.len() == 0 {
            decimal(p.0) + p.1
        } else {
            rest + ","@ + decimal(p.0) + p.1
        }
    }
}

/// A duration of `secs` seconds and `nanos` nanoseconds as text such as
/// `1h,2m,3s`, counted in whole microseconds; `0μs` for less than one.
pub open spec fn human_time_of(secs: u64, nanos: u32) -> Seq<char> {
    let text = joined_parts(time_parts((secs * 1_000_000 + nanos / 1_000) as nat));
    if text.len() == 0 {
        "0\u{3bc}s"@
    } else {
        text
    }
}

/// Relies on `human_time::human_time`: it splits the duration's whole
/// microseconds into units from days down, and joins the parts that are not
/// zero.
#[verifier::external_body]
fn human_time_text(secs: u64, nanos: u32) -> (r: String)
    requires
        nanos < 1_000_000_000,
    ensures
        r@ == human_time_of(secs, nanos),
{
    human_time::human_time(std::time::Duration::new(secs, nanos))
}

/// Relies on `Instant::elapsed`: the time since `start`, as whole seconds and
/// the nanoseconds below a second.
#[verifier::external_body]
fn elapsed_since(start: &Instant) -> (r: (u64, u32))
    ensures
        r.1 < 1_000_000_000,
{
    let d = start.elapsed();
    (d.as_secs(), d.subsec_nanos())
}

/// The identifier that the variable `env_key` holds, if it is set and is one.
pub open spec fn env_id(vars: Seq<(Seq<char>, Seq<char>)>, env_key: Seq<char>) -> Option<u64> {
    match env_lookup(vars, env_key) {
        Some(v) => id_value(v),
        None => None,
    }
}

/// The identifier that the variable `env_key` holds; `None` where it is not
/// set or is not an identifier.
pub fn parse_value_from_env(env: &EnvVars, env_key: &str) -> (r: Option<u64>)
    ensures
        r == env_id(env@, env_key@),
{
    match env.get(env_key) {
        Some(v) => parse_id(v.as_str()),
        None => None,
    }
}

/// The identifier that the required variable `env_key` holds.
pub fn parse_value_from_env_expect(env: &EnvVars, env_key: &str) -> (r: u64)
    requires
        env_id(env@, env_key@) is Some,
    ensures
        Some(r) == env_id(env@, env_key@),
{
    match parse_value_from_env(env, env_key) {
        Some(x) => x,
        // Ruled out by the precondition.
        None => 0,
    }
}

/// Settings that only decide how the process starts.
#[derive(Debug)]
pub struct StartupConfig {
    /// The guild to register commands in; set only on test runs.
    pub test_guild_id: Option<u64>,
    /// The channel to announce startup in; `None` leaves the announcement off.
    pub bot_startup_channel: Option<u64>,
}

/// The value of an optional identifier key.
pub open spec fn optional_id(vars: Seq<(Seq<char>, Seq<char>)>, key: KeyName) -> Option<u64> {
    match key_id(vars, key) {
        Ok(n) => Some(n),
        Err(_) => None,
    }
}

impl StartupConfig {
    /// Reads the optional startup keys; a missing or unparseable one is off.
    pub fn new(env: &EnvVars) -> (r: StartupConfig)
        ensures
            r.test_guild_id == optional_id(env@, KeyName::TestGuildId),
            r.bot_startup_channel == optional_id(env@, KeyName::StartupMsgChannel),
    {
        StartupConfig {
            test_guild_id: KeyName::TestGuildId.get_non_secret_parse_opt(env),
            bot_startup_channel: KeyName::StartupMsgChannel.get_non_secret_parse_opt(env),
        }
    }

    /// A run is a production run when no test guild is given.
    pub fn is_production(&self) -> (r: bool)
        ensures
            r == (self.test_guild_id is None),
    {
        self.test_guild_id.is_none()
    }
}

/// Settings shared read-only by every part of the process for its lifetime.
#[derive(Debug)]
pub struct SharedConfig {
    /// When the process started.
    pub start_instant: Instant,
    /// The role allowed to run privileged commands.
    pub auth_role_id: u64,
    /// The channel of the unranked challenge.
    pub channel_unranked: u64,
}

impl SharedConfig {
    /// Reads the required keys; the first that is missing or unparseable is
    /// the error.
    pub fn try_new(env: &EnvVars) -> (r: Result<SharedConfig, ConfigError>)
        ensures
            match (key_id(env@, KeyName::AuthRoleId), key_id(env@, KeyName::CohortChannel)) {
                (Err(e), _) => r == Err::<SharedConfig, ConfigError>(e),
                (Ok(_), Err(e)) => r == Err::<SharedConfig, ConfigError>(e),
                (Ok(a), Ok(c)) => r is Ok && r->Ok_0.auth_role_id == a && r->Ok_0.channel_unranked
                    == c,
            },
    {
        let auth_role_id = KeyName::AuthRoleId.get_non_secret_parse(env)?;
        let channel_unranked = KeyName::CohortChannel.get_non_secret_parse(env)?;
        Ok(SharedConfig { start_instant: Instant::now(), auth_role_id, channel_unranked })
    }

    /// How long the process has run, as text.
    pub fn uptime(&self) -> (r: String)
        ensures
            exists|secs: u64, nanos: u32| nanos < 1_000_000_000 && r@ == human_time_of(secs, nanos),
    {
        let (secs, nanos) = elapsed_since(&self.start_instant);
        human_time_text(secs, nanos)
    }

    /// Writes `value` under `key` to the record store. A store that is down
    /// drops the write; the caller is never failed by it.
    pub fn save_kv(&self, backend: &mut KvStore, key: &str, value: &Vec<(String, u64)>)
        ensures
            final(backend).is_up() == old(backend).is_up(),
            old(backend).is_up() ==> final(backend)@ == old(backend)@.insert(key@, pairs_view(value@)),
            !old(backend).is_up() ==> final(backend)@ == old(backend)@,
    {
        let _ = backend.save(key, value);
    }

    /// The record under `key`, or an empty one where the store is down or
    /// holds none.
    pub fn load_or_default_kv(&self, backend: &KvStore, key: &str) -> (r: Vec<(String, u64)>)
        ensures
            pairs_view(r@) == loaded_or_default(backend@, backend.is_up(), key@),
    {
        match backend.load(key) {
            Ok(Some(v)) => v,
            _ => {
                let r: Vec<(String, u64)> = Vec::new();
                assert(pairs_view(r@) =~= Seq::<(Seq<char>, u64)>::empty());
                r
            },
        }
    }
}

} // verus!
