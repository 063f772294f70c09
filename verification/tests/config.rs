use std::time::Duration;

use concord_bots::bot::{
    communities_to_join, community_to_create, configured_owner, configured_profile,
    disable_joined, identity, policy_name, profile_metadata,
};
use concord_bots::community::Database;
use concord_bots::config::{BotConfig, Feature, InvitePolicyConfig};
use concord_bots::cooldown::Cooldowns;
use concord_bots::handlers::scheduled::{claim_interval, git_monitor_on, git_poll_interval};
use concord_bots::http::{failure, user_agent, TIMEOUT_SECS};
use concord_bots::json;

#[test]
fn test_default_config() {
    let config = BotConfig::default();
    assert!(config.bot_nsec(None).is_none());
    assert!(matches!(config.invite_policy(), InvitePolicyConfig::Manual));
}

#[test]
fn test_auth_defaults() {
    let config = BotConfig::default();
    assert!(config.auth.owner.is_none());
    assert!(config.auth.authorized.is_empty());
    assert!(config.auth.persist); // defaults to true
    assert_eq!(config.auth.state_file, "auth_state.json");
}

#[test]
fn test_feature_defaults() {
    let config = BotConfig::default();
    assert!(config.features.utility);
    assert!(config.features.fun);
    assert!(config.features.community);
    assert!(config.features.nostr);
    assert!(!config.features.ai); // disabled by default
    assert!(config.features.moderation);
}

#[test]
fn test_feature_is_enabled() {
    let config = BotConfig::default();
    assert!(config.features.is_enabled(Feature::Utility));
    assert!(config.features.is_enabled(Feature::Fun));
    assert!(!config.features.is_enabled(Feature::Ai));
}

#[test]
fn test_default_config_has_no_custom() {
    let config = BotConfig::default();
    assert!(config.custom.is_none());
}

#[test]
fn test_module_loads() {
    let config = BotConfig::default();
    assert!(claim_interval(&config.npub_cash, true).is_none());
}

#[test]
fn test_client_exists() {
    let client = reqwest::Client::builder()
        .timeout(Duration::from_secs(TIMEOUT_SECS))
        .user_agent(user_agent("0.1.0"))
        .build();
    assert!(client.is_ok());
}

#[test]
fn requests_name_the_bot_and_their_failures() {
    assert_eq!(user_agent("0.1.0"), "concord-bots/0.1.0");
    assert_eq!(
        failure("404 Not Found", "https://x.y", "gone"),
        "HTTP 404 Not Found for https://x.y: gone"
    );
}

#[test]
fn keys_come_from_config_environment_or_file() {
    let mut config = BotConfig::default();
    assert_eq!(identity(&config, None, None), None);
    assert_eq!(identity(&config, None, Some(" nsec1saved\n")), Some("nsec1saved".to_string()));
    assert_eq!(identity(&config, None, Some("junk")), None);
    assert_eq!(
        identity(&config, Some("nsec1env"), Some("nsec1saved")),
        Some("nsec1env".to_string())
    );
    config.bot.nsec = Some("nsec1cfg".to_string());
    assert_eq!(identity(&config, Some("nsec1env"), None), Some("nsec1cfg".to_string()));
    config.bot.nsec = Some("auto".to_string());
    assert_eq!(identity(&config, None, None), None);
}

#[test]
fn policies_are_told_apart() {
    let mut config = BotConfig::default();
    config.bot.invite_policy = "public".to_string();
    assert!(matches!(config.invite_policy(), InvitePolicyConfig::Public));
    config.bot.invite_policy = "whitelist".to_string();
    config.bot.whitelist = vec!["npub1a".to_string()];
    assert!(matches!(config.invite_policy(), InvitePolicyConfig::Whitelist(l) if l == vec!["npub1a".to_string()]));
    assert_eq!(policy_name("authorized"), "authorized");
    assert_eq!(policy_name("whitelist"), "whitelist (legacy)");
    assert_eq!(policy_name(""), "owner (default)");
    assert_eq!(policy_name("x"), "owner");
}

#[test]
fn settings_of_custom_handlers() {
    let mut config = BotConfig::default();
    config.custom = json::read("{\"greeting\":\"hi\",\"n\":1}");
    assert_eq!(config.custom_string("greeting"), Some("hi".to_string()));
    assert_eq!(config.custom_string("n"), None);
    assert!(config.custom_get("n").is_some());
    assert!(config.custom_get("x").is_none());
}

#[test]
fn owners_and_profiles_are_optional() {
    let mut config = BotConfig::default();
    assert!(configured_owner(&config.auth).is_none());
    config.auth.owner = Some(String::new());
    assert!(configured_owner(&config.auth).is_none());
    config.auth.owner = Some("npub1o".to_string());
    assert_eq!(configured_owner(&config.auth), Some("npub1o".to_string()));
    assert!(configured_profile(&config.bot).is_none());
    config.bot.lud16 = Some("bob@x.y".to_string());
    config.bot.about = Some("Hi".to_string());
    let p = match configured_profile(&config.bot) {
        Some(p) => p,
        None => panic!("a profile is set"),
    };
    assert_eq!(p.name, "Flagship");
    assert_eq!(
        json::write(&profile_metadata(&p)),
        "{\"about\":\"Hi\",\"bot\":true,\"lud16\":\"bob@x.y\",\"name\":\"Flagship\"}"
    );
}

#[test]
fn communities_at_the_start() {
    let mut config = BotConfig::default();
    config.v2.auto_create = true;
    config.v2.community_name = None;
    assert_eq!(community_to_create(&config.v2, 0), Some("Bot Community".to_string()));
    assert_eq!(community_to_create(&config.v2, 1), None);
    config.v2.auto_create = false;
    assert_eq!(community_to_create(&config.v2, 0), None);
    let mut db = Database::new();
    db.set_channel_enabled("a", true, "x", 1);
    db.set_channel_enabled("b", true, "x", 1);
    let joined = json::read("{\"channels\":[{\"channel_id\":\"a\"},{}]}").unwrap();
    disable_joined(&mut db, &joined, 2);
    assert!(!db.is_channel_enabled("a"));
    assert!(db.is_channel_enabled("b"));
}

#[test]
fn intervals_of_tasks() {
    let mut config = BotConfig::default();
    config.git_monitor.enabled = true;
    config.git_monitor.poll_interval_secs = 5;
    assert!(git_monitor_on(&config.features, &config.git_monitor));
    assert_eq!(git_poll_interval(&config.features, &config.git_monitor), Some(60));
    config.git_monitor.poll_interval_secs = 600;
    assert_eq!(git_poll_interval(&config.features, &config.git_monitor), Some(600));
    config.features.git_monitor = false;
    assert_eq!(git_poll_interval(&config.features, &config.git_monitor), None);
    config.npub_cash.enabled = true;
    assert_eq!(claim_interval(&config.npub_cash, true), Some(300));
    assert_eq!(claim_interval(&config.npub_cash, false), None);
}

#[test]
fn cooldowns_are_kept_apart() {
    let mut c = Cooldowns::new();
    assert!(c.pass("a", "x", 0, 10));
    assert!(!c.pass("a", "x", 9, 10));
    assert!(c.pass("a", "y", 9, 10));
    assert!(c.pass("b", "x", 9, 10));
    assert!(c.pass("a", "x", 10, 10));
    assert!(!c.pass("a", "x", 19, 10));
}

#[test]
fn json_is_read_and_written() {
    let v = json::read(" {\"b\": [1, -2.5, true, null, \"\\u00e9\"], \"a\": {}} ").unwrap();
    assert_eq!(json::write(&v), "{\"a\":{},\"b\":[1,-2.5,true,null,\"é\"]}");
    assert_eq!(v.get("b").unwrap().as_array().unwrap().len(), 5);
    assert_eq!(v.get("b").unwrap().get_index(0).unwrap().as_u64(), Some(1));
    assert_eq!(v.get("b").unwrap().get_index(1).unwrap().as_i64(), None);
    assert_eq!(v.get("b").unwrap().get_index(2).unwrap().as_bool(), Some(true));
    assert!(json::read("{").is_none());
}

#[test]
fn named_communities_are_joined_before_links() {
    let mut config = BotConfig::default();
    config.communities.join = vec!["a".to_string(), "b".to_string()];
    config.v2.join_on_start = vec!["link".to_string()];
    assert_eq!(communities_to_join(&config.communities, &config.v2), vec!["a", "b", "link"]);
}
