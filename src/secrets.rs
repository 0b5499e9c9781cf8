//! The configuration keys that the process reads from its environment, and
//! lookups of them in a captured environment.

use crate::text::{id_value, parse_id};
use vstd::prelude::*;

verus! {

/// The value that the first binding of `k` in `vars` gives it.
pub open spec fn env_lookup(vars: Seq<(Seq<char>, Seq<char>)>, k: Seq<char>) -> Option<Seq<char>>
    decreases vars.len(),
{
    if vars.len() == 0 {
        None
    } else if vars[0].0 == k {
        Some(vars[0].1)
    } else {
        env_lookup(vars.drop_first(), k)
    }
}

/// A captured environment: variable names bound to values.
pub struct EnvVars {
    vars: Vec<(String, String)>,
}

impl View for EnvVars {
    type V = Seq<(Seq<char>, Seq<char>)>;

    closed spec fn view(&self) -> Seq<(Seq<char>, Seq<char>)> {
        self.vars@.map_values(|p: (String, String)| (p.0@, p.1@))
    }
}

impl EnvVars {
    /// An environment with no variable.
    pub fn new() -> (r: EnvVars)
        ensures
            r@ == Seq::<(Seq<char>, Seq<char>)>::empty(),
    {
        let r = EnvVars { vars: Vec::new() };
        assert(r@ =~= Seq::<(Seq<char>, Seq<char>)>::empty());
        r
    }

    /// Binds `key` to `value`, hiding any earlier binding of `key`.
    pub fn set(&mut self, key: &str, value: &str)
        ensures
            final(self)@ == seq![(key@, value@)] + old(self)@,
            env_lookup(final(self)@, key@) == Some(value@),
    {
        self.vars.insert(0, (String::from_str(key), String::from_str(value)));
        assert(self@ =~= seq![(key@, value@)] + old(self)@);
    }

    /// The value bound to `key`, if any.
    pub fn get(&self, key: &str) -> (r: Option<String>)
        ensures
            match env_lookup(self@, key@) {
                Some(v) => r is Some && r->Some_0@ == v,
                None => r is None,
            },
    {
        let k = String::from_str(key);
        let mut i: usize = 0;
        assert(self@.subrange(0, self@.len() as int) =~= self@);
        while i < self.vars.len()
            invariant
                i <= self.vars@.len(),
                k@ == key@,
                env_lookup(self@, key@) == env_lookup(self@.subrange(i as int, self@.len() as int), key@),
            decreases self.vars@.len() - i,
        {
            let ghost rest = self@.subrange(i as int, self@.len() as int);
            assert(rest[0] == (self.vars@[i as int].0@, self.vars@[i as int].1@));
            if self.vars[i].0 == k {
                return Some(self.vars[i].1.clone());
            }
            assert(rest.drop_first() =~= self@.subrange(i + 1, self@.len() as int));
            i = i + 1;
        }
        None
    }
}

/// The keys of the process configuration.
#[derive(Clone, Copy, Debug, PartialEq, Eq, Structural)]
pub enum KeyName {
    /// The bot's authentication token; a secret.
    DiscordToken,
    /// A guild to register commands in directly; set only on test runs.
    TestGuildId,
    /// The role allowed to run privileged commands.
    AuthRoleId,
    /// The channel for cohort messages.
    CohortChannel,
    /// The channel for the startup message.
    StartupMsgChannel,
}

/// Why a configuration key could not be read.
#[derive(Clone, Copy, Debug, PartialEq, Eq, Structural)]
pub enum ConfigError {
    /// The variable is not set.
    Missing(KeyName),
    /// The variable is set but is not an identifier.
    Unparseable(KeyName),
}

/// The identifier that `key` holds in `vars`, or why it holds none.
pub open spec fn key_id(vars: Seq<(Seq<char>, Seq<char>)>, key: KeyName) -> Result<u64, ConfigError> {
    match env_lookup(vars, key.spec_name()) {
        None => Err(ConfigError::Missing(key)),
        Some(v) => match id_value(v) {
            Some(n) => Ok(n),
            None => Err(ConfigError::Unparseable(key)),
        },
    }
}

impl AsRef<str> for KeyName {
    fn as_ref(&self) -> (r: &str)
        ensures
            r@ == self.spec_name(),
    {
        self.as_str()
    }
}

impl ConfigError {
    /// The key that could not be read.
    pub open spec fn spec_key(self) -> KeyName {
        match self {
            ConfigError::Missing(k) => k,
            ConfigError::Unparseable(k) => k,
        }
    }

    /// A description of the error that names the variable.
    pub fn message(&self) -> (r: String)
        ensures
            r@ == match *self {
                ConfigError::Missing(k) => "failed to get environment variable: "@ + k.spec_name(),
                ConfigError::Unparseable(k) => "failed to parse environment variable: "@
                    + k.spec_name(),
            },
    {
        let (mut r, k) = match self {
            ConfigError::Missing(k) => (String::from_str("failed to get environment variable: "), k),
            ConfigError::Unparseable(k) => (
                String::from_str("failed to parse environment variable: "),
                k,
            ),
        };
        r.append(k.as_str());
        r
    }
}

impl KeyName {
    /// The name of the environment variable.
    pub open spec fn spec_name(self) -> Seq<char> {
        match self {
            KeyName::DiscordToken => "TOKEN"@,
            KeyName::TestGuildId => "TEST_GUILD_ID"@,
            KeyName::AuthRoleId => "AUTH_ROLE_ID"@,
            KeyName::CohortChannel => "COHORT_CHANNEL"@,
            KeyName::StartupMsgChannel => "STARTUP_MSG_CHANNEL"@,
        }
    }

    /// The name of the environment variable.
    pub fn as_str(&self) -> (r: &'static str)
        ensures
            r@ == self.spec_name(),
    {
        match self {
            KeyName::DiscordToken => "TOKEN",
            KeyName::TestGuildId => "TEST_GUILD_ID",
            KeyName::AuthRoleId => "AUTH_ROLE_ID",
            KeyName::CohortChannel => "COHORT_CHANNEL",
            KeyName::StartupMsgChannel => "STARTUP_MSG_CHANNEL",
        }
    }

    /// The value of the variable, as it stands.
    pub fn get_non_secret_string(&self, env: &EnvVars) -> (r: Result<String, ConfigError>)
        ensures
            match env_lookup(env@, self.spec_name()) {
                Some(v) => r is Ok && r->Ok_0@ == v,
                None => r == Err::<String, ConfigError>(ConfigError::Missing(*self)),
            },
    {
        match env.get(self.as_str()) {
            Some(v) => Ok(v),
            None => Err(ConfigError::Missing(*self)),
        }
    }

    /// The identifier that the variable holds.
    pub fn get_non_secret_parse(&self, env: &EnvVars) -> (r: Result<u64, ConfigError>)
        ensures
            r == key_id(env@, *self),
    {
        let v = self.get_non_secret_string(env)?;
        match parse_id(v.as_str()) {
            Some(n) => Ok(n),
            None => Err(ConfigError::Unparseable(*self)),
        }
    }

    /// The identifier that the variable holds; `None` where it is missing or
    /// unparseable, for a key whose feature is then left off.
    pub fn get_non_secret_parse_opt(&self, env: &EnvVars) -> (r: Option<u64>)
        ensures
            match key_id(env@, *self) {
                Ok(n) => r == Some(n),
                Err(_) => r is None,
            },
    {
        match self.get_non_secret_parse(env) {
            Ok(x) => Some(x),
            Err(_) => None,
        }
    }
}

} // verus!
