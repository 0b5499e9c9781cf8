use ale_bot::config::{parse_value_from_env, parse_value_from_env_expect, SharedConfig, StartupConfig};
use ale_bot::secrets::{ConfigError, EnvVars, KeyName};

fn full_env() -> EnvVars {
    let mut env = EnvVars::new();
    env.set("AUTH_ROLE_ID", "123");
    env.set("COHORT_CHANNEL", "456");
    env.set("TEST_GUILD_ID", "789");
    env.set("STARTUP_MSG_CHANNEL", "1011");
    env
}

#[test]
fn missing_auth_role_aborts_startup() {
    let mut env = EnvVars::new();
    env.set("COHORT_CHANNEL", "456");
    let err = SharedConfig::try_new(&env).unwrap_err();
    assert_eq!(err, ConfigError::Missing(KeyName::AuthRoleId));
    assert!(err.message().contains("AUTH_ROLE_ID"));
    assert_eq!(err.message(), "failed to get environment variable: AUTH_ROLE_ID");
}

#[test]
fn missing_startup_channel_disables_notification() {
    let mut env = EnvVars::new();
    env.set("AUTH_ROLE_ID", "123");
    env.set("COHORT_CHANNEL", "456");
    assert!(SharedConfig::try_new(&env).is_ok());
    let sc = StartupConfig::new(&env);
    assert_eq!(sc.bot_startup_channel, None);
    assert_eq!(sc.test_guild_id, None);
    assert!(sc.is_production());
}

#[test]
fn full_configuration_reads_every_key() {
    let env = full_env();
    let cfg = SharedConfig::try_new(&env).unwrap();
    assert_eq!(cfg.auth_role_id, 123);
    assert_eq!(cfg.channel_unranked, 456);
    let sc = StartupConfig::new(&env);
    assert_eq!(sc.test_guild_id, Some(789));
    assert_eq!(sc.bot_startup_channel, Some(1011));
    assert!(!sc.is_production());
    assert!(!cfg.uptime().is_empty());
    let up = cfg.uptime();
    assert!(up.chars().any(|c| c.is_ascii_digit()));
    assert!(up.ends_with('s') || up.ends_with('m') || up.ends_with('h') || up.ends_with('d'));
}

#[test]
fn unparseable_required_key_is_named() {
    let mut env = EnvVars::new();
    env.set("AUTH_ROLE_ID", "123");
    env.set("COHORT_CHANNEL", "general");
    let err = SharedConfig::try_new(&env).unwrap_err();
    assert_eq!(err, ConfigError::Unparseable(KeyName::CohortChannel));
    assert_eq!(err.message(), "failed to parse environment variable: COHORT_CHANNEL");
}

#[test]
fn unparseable_optional_key_is_off() {
    let mut env = EnvVars::new();
    env.set("STARTUP_MSG_CHANNEL", "0");
    assert_eq!(StartupConfig::new(&env).bot_startup_channel, None);
    assert_eq!(KeyName::StartupMsgChannel.get_non_secret_parse_opt(&env), None);
}

#[test]
fn key_lookups() {
    let mut env = full_env();
    assert_eq!(KeyName::DiscordToken.get_non_secret_string(&env), Err(ConfigError::Missing(KeyName::DiscordToken)));
    env.set("TOKEN", "SECRET-REDACTED");
    assert_eq!(KeyName::DiscordToken.get_non_secret_string(&env), Ok("SECRET-REDACTED".to_string()));
    assert_eq!(KeyName::AuthRoleId.get_non_secret_parse(&env), Ok(123));
    env.set("AUTH_ROLE_ID", "77");
    assert_eq!(KeyName::AuthRoleId.get_non_secret_parse(&env), Ok(77));
    assert_eq!(env.get("AUTH_ROLE_ID"), Some("77".to_string()));
    assert_eq!(env.get("NOPE"), None);
    assert_eq!(KeyName::CohortChannel.as_str(), "COHORT_CHANNEL");
    assert_eq!(KeyName::AuthRoleId.as_ref(), "AUTH_ROLE_ID");
    assert_eq!(KeyName::DiscordToken.as_ref(), "TOKEN");
    assert_eq!(KeyName::TestGuildId.as_ref(), "TEST_GUILD_ID");
    assert_eq!(KeyName::StartupMsgChannel.as_ref(), "STARTUP_MSG_CHANNEL");
}

#[test]
fn value_from_env() {
    let env = full_env();
    assert_eq!(parse_value_from_env(&env, "TEST_GUILD_ID"), Some(789));
    assert_eq!(parse_value_from_env(&env, "ABSENT"), None);
    assert_eq!(parse_value_from_env_expect(&env, "COHORT_CHANNEL"), 456);
}
