use concord_bots::auth::{AuthLevel, AuthManager};
use concord_bots::community::Database;
use concord_bots::config::FeaturesSection;
use concord_bots::cooldown::Cooldowns;
use concord_bots::handlers::commands::{
    add_command, auth_command, command_registry, disable_command, echo_command, enable_command,
    find_command, help_command, help_text, list_command, on_message, ping_command, remove_command,
    repo_command, require_auth, welcome_command, whoami_command, Command, Route,
};
use concord_bots::handlers::{
    award_drawn_xp, award_message_xp, earns_xp, new_welcomes, normalize_npub, on_event,
    set_welcome_enabled, is_welcome_enabled, BotEvent, Outgoing,
};
use concord_bots::rate_limiter::RateLimiter;

const SEC: u64 = 1_000_000_000;

#[test]
fn test_help_text_contains_all_commands() {
    let help = help_text(&FeaturesSection::default());
    // General
    assert!(help.contains("!ping"));
    assert!(help.contains("!help"));
    assert!(help.contains("!stats"));
    // Utility
    assert!(help.contains("!price"));
    assert!(help.contains("!time"));
    assert!(help.contains("!roll"));
    assert!(help.contains("!weather"));
    // New utility commands
    assert!(help.contains("!remind"));
    assert!(help.contains("!poll"));
    assert!(help.contains("!translate"));
    assert!(help.contains("!define"));
    assert!(help.contains("!quote"));
    assert!(help.contains("!joke"));
    assert!(help.contains("!fact"));
    assert!(help.contains("!meme"));
    assert!(help.contains("!shorten"));
    assert!(help.contains("!delete"));
    // Fun
    assert!(help.contains("!8ball"));
    assert!(help.contains("!flip"));
    assert!(help.contains("!choose"));
    assert!(help.contains("!rps"));
    // Wallet
    assert!(help.contains("!balance"));
    assert!(help.contains("!tip"));
    assert!(help.contains("!deposit"));
    assert!(help.contains("!withdraw"));
    assert!(help.contains("!zap"));
    // Owner
    assert!(help.contains("!add"));
    assert!(help.contains("!remove"));
    assert!(help.contains("!list"));
}

#[test]
fn test_help_text_contains_moderation_commands() {
    let help = help_text(&FeaturesSection::default());
    assert!(help.contains("!kick"));
    assert!(help.contains("!ban"));
    assert!(help.contains("!unban"));
    assert!(help.contains("!warn"));
    assert!(help.contains("!warnings"));
    assert!(help.contains("!grantmod"));
    assert!(help.contains("!grantmod"));
    assert!(help.contains("!revokemod"));
}

#[test]
fn test_normalize_npub_nostr_prefix() {
    assert_eq!(normalize_npub("nostr:npub1abc"), "npub1abc");
}

#[test]
fn test_normalize_npub_at_sign() {
    assert_eq!(normalize_npub("@npub1abc"), "npub1abc");
}

#[test]
fn test_normalize_npub_plain() {
    assert_eq!(normalize_npub("npub1abc"), "npub1abc");
}

#[test]
fn test_normalize_npub_whitespace() {
    assert_eq!(normalize_npub("  nostr:npub1abc  "), "npub1abc");
}

#[test]
fn help_has_sections_for_what_is_on() {
    let mut f = FeaturesSection::default();
    let all = help_text(&f);
    assert!(all.starts_with("Available commands:\n\n📋 General\n  !ping — Health check\n  !repo — Bot repo URL\n"));
    assert!(all.ends_with("🔐 Owner\n  !add — Authorize a user\n  !remove — Deauthorize a user\n  !list — List authorized users\n  !enable — Enable bot in this channel\n  !disable — Disable bot in this channel"));
    assert!(!all.contains("🤖 AI"));
    f.fun = false;
    let less = help_text(&f);
    assert!(!less.contains("🎮 Fun") && !less.contains("!rps"));
}

fn route(auth: Option<&AuthManager>, npub: &str, text: &str) -> Route {
    let mut limiter = RateLimiter::default();
    on_message(
        &mut limiter,
        &FeaturesSection::default(),
        auth,
        Some(true),
        npub,
        "chat",
        None,
        text,
        0,
    )
}

fn runs(r: &Route, c: Command, args: &str) -> bool {
    match r {
        Route::Run(d, a) => *d == c && a == args,
        _ => false,
    }
}

fn says(r: &Route, what: &str) -> bool {
    match r {
        Route::Reply(s) => s == what,
        _ => false,
    }
}

#[test]
fn commands_are_found_by_name() {
    assert_eq!(find_command("!8ball"), Some(Command::EightBall));
    assert_eq!(find_command("!git"), Some(Command::Git));
    assert_eq!(find_command("!unban"), Some(Command::Unban));
    assert_eq!(find_command("!nothing"), None);
}

#[test]
fn messages_are_routed() {
    assert!(runs(&route(None, "npub1a", "!echo hello  world"), Command::Echo, "hello  world"));
    assert!(runs(&route(None, "npub1a", "!ping"), Command::Ping, ""));
    assert!(matches!(route(None, "npub1a", "!unknown x"), Route::Ignore));
    let auth = AuthManager::new("npub1owner", &vec!["npub1f".to_string()], false, None);
    assert!(says(&route(Some(&auth), "npub1a", "!add npub1b"), "⛔ Owner only."));
    assert!(runs(&route(Some(&auth), "npub1owner", "!add npub1b"), Command::Add, "npub1b"));
    assert!(says(
        &route(Some(&auth), "npub1a", "!kick npub1b"),
        "⛔ Not authorized. Ask the owner to run !add <your-npub>"
    ));
    assert!(runs(&route(Some(&auth), "npub1f", "!kick npub1b"), Command::Kick, "npub1b"));
    assert!(runs(&route(Some(&auth), "npub1a", "!balance"), Command::Balance, ""));
    assert!(says(
        &route(Some(&auth), "npub1a", "!withdraw lnbc1"),
        "⛔ Not authorized. Ask the owner to run !add <your-npub>"
    ));
}

#[test]
fn git_subcommands_ask_for_levels() {
    let auth = AuthManager::new("npub1owner", &vec!["npub1f".to_string()], false, None);
    assert!(runs(&route(Some(&auth), "npub1a", "!git list"), Command::Git, "list"));
    assert!(says(
        &route(Some(&auth), "npub1a", "!git add a/b"),
        "⛔ Not authorized. Ask the owner to run !add <your-npub>"
    ));
    assert!(runs(&route(Some(&auth), "npub1f", "!git add a/b"), Command::Git, "add a/b"));
    assert!(says(&route(Some(&auth), "npub1f", "!git poll"), "⛔ Owner only."));
}

#[test]
fn disabled_channels_hear_only_the_switch() {
    let mut limiter = RateLimiter::default();
    let f = FeaturesSection::default();
    let r = on_message(&mut limiter, &f, None, Some(false), "a", "c", None, "!ping", 0);
    assert!(matches!(r, Route::Ignore));
    let r = on_message(&mut limiter, &f, None, Some(false), "a", "c", None, "!enable", 0);
    assert!(runs(&r, Command::Enable, ""));
    // An unknown state counts as switched on.
    let r = on_message(&mut limiter, &f, None, None, "a", "c", None, "!ping", 0);
    assert!(runs(&r, Command::Ping, ""));
}

#[test]
fn disabled_features_and_hasty_users() {
    let mut limiter = RateLimiter::default();
    let mut f = FeaturesSection::default();
    f.fun = false;
    let r = on_message(&mut limiter, &f, None, Some(true), "a", "c", None, "!flip", 0);
    assert!(matches!(r, Route::Ignore));
    let r = on_message(&mut limiter, &f, None, Some(true), "a", "c", None, "!ping", 0);
    assert!(runs(&r, Command::Ping, ""));
    let r = on_message(&mut limiter, &f, None, Some(true), "a", "c", None, "!ping", SEC);
    assert!(says(&r, "⏳ !ping is on cooldown. Try again in 2s."));
    // Senders without a name are told apart by their chat.
    let r = on_message(&mut limiter, &f, None, Some(true), "", "c", None, "!ping", SEC);
    assert!(runs(&r, Command::Ping, ""));
}

#[test]
fn levels_are_required() {
    let auth = AuthManager::new("npub1owner", &vec![], false, None);
    assert!(require_auth(None, "npub1a", None, AuthLevel::Owner).is_none());
    assert!(require_auth(Some(&auth), "npub1a", None, AuthLevel::Public).is_none());
    assert_eq!(
        require_auth(Some(&auth), "npub1a", None, AuthLevel::Owner).unwrap(),
        "⛔ Owner only."
    );
    assert!(require_auth(Some(&auth), "npub1owner", None, AuthLevel::Owner).is_none());
}

#[test]
fn simple_answers() {
    assert_eq!(ping_command(), "pong 🏓");
    assert!(repo_command().starts_with("📦 concord-bots\n"));
    assert_eq!(echo_command(""), "Usage: !echo <text>");
    assert_eq!(echo_command("hi"), "hi");
    assert_eq!(
        whoami_command("npub1bot", "1.2.3"),
        "I am concord-bot 🤖\nnpub: npub1bot\nFramework: concord-bots v1.2.3"
    );
}

#[test]
fn help_is_shown_once_in_a_while() {
    let f = FeaturesSection::default();
    let mut shown = Cooldowns::new();
    assert!(help_command(&mut shown, &f, "chan", 0).starts_with("Available commands"));
    assert_eq!(
        help_command(&mut shown, &f, "chan", 179 * SEC),
        "ℹ️ Help was recently shown in this channel. Try again in a few minutes."
    );
    assert!(help_command(&mut shown, &f, "other", 179 * SEC).starts_with("Available commands"));
    assert!(help_command(&mut shown, &f, "chan", 180 * SEC).starts_with("Available commands"));
}

#[test]
fn auth_status_is_told() {
    let auth = AuthManager::new("npub1owner", &vec!["npub1f".to_string()], false, None);
    assert_eq!(
        auth_command(None, "npub1a", None),
        "Auth system is not configured. All commands are public."
    );
    assert_eq!(
        auth_command(Some(&auth), "", None),
        "⚠️ Could not determine your npub from this message."
    );
    assert_eq!(
        auth_command(Some(&auth), "npub1owner", None),
        "👑 You are the **owner**.\nnpub: npub1owner"
    );
    assert_eq!(
        auth_command(Some(&auth), "npub1f", Some("c")),
        "✅ You are **authorized** in this community.\nnpub: npub1f"
    );
    assert_eq!(
        auth_command(Some(&auth), "npub1a", None),
        "❌ You are **not authorized** in DMs (global only).\nnpub: npub1a\nAsk the owner to run: !add npub1a"
    );
}

#[test]
fn users_are_added_listed_and_removed() {
    let mut auth = AuthManager::new("npub1owner", &vec![], false, None);
    assert!(add_command(&mut auth, " ", None).starts_with("Usage: !add <npub> [global]\n\n"));
    assert_eq!(
        add_command(&mut auth, "bob", None),
        "⚠️ That doesn't look like a valid npub. Use npub1... or nostr:npub1..."
    );
    assert_eq!(
        add_command(&mut auth, "npub1owner", None),
        "ℹ️ That npub is already the owner — no need to add."
    );
    assert_eq!(
        add_command(&mut auth, "nostr:npub1b", Some("c")),
        "✅ Added npub1b to authorized users in this community."
    );
    assert_eq!(
        add_command(&mut auth, "npub1b", Some("c")),
        "ℹ️ npub1b is already authorized in this community."
    );
    assert_eq!(
        add_command(&mut auth, "npub1a global", Some("c")),
        "✅ Added npub1a to authorized users globally."
    );
    assert_eq!(
        list_command(&auth, Some("c")),
        "Owner: npub1owner\n\n🌍 Global authorized (1):\n  • npub1a\n\n📍 This community authorized (1):\n  • npub1b"
    );
    assert_eq!(remove_command(&mut auth, "", None), "Usage: !remove <npub> [global]");
    assert_eq!(remove_command(&mut auth, "@", None), "Usage: !remove <npub>");
    assert_eq!(remove_command(&mut auth, "npub1owner", None), "⚠️ Cannot remove the owner.");
    assert_eq!(
        remove_command(&mut auth, "npub1b global", Some("c")),
        "ℹ️ npub1b is not authorized in global."
    );
    assert_eq!(
        remove_command(&mut auth, "npub1b", Some("c")),
        "✅ Removed npub1b from this community authorized users."
    );
    assert_eq!(
        remove_command(&mut auth, "npub1a global", Some("c")),
        "✅ Removed npub1a from global authorized users."
    );
    assert_eq!(list_command(&auth, Some("c")), "Owner: npub1owner\nAuthorized users: (none)");
}

#[test]
fn channels_are_switched() {
    let mut db = Database::new();
    assert_eq!(
        enable_command(&mut db, "c", "npub1a", 5),
        "✅ Bot enabled for this channel. I'm listening!"
    );
    assert_eq!(enable_command(&mut db, "c", "npub1a", 6), "✅ This channel is already enabled.");
    assert!(db.is_channel_enabled("c"));
    assert!(disable_command(&mut db, "c", "npub1a", 7).starts_with("🔇 Bot disabled"));
    assert_eq!(
        disable_command(&mut db, "c", "npub1a", 8),
        "🔇 This channel is already disabled."
    );
}

#[test]
fn welcomes_are_switched() {
    let mut on = true;
    assert_eq!(
        welcome_command(&mut on, "?"),
        "Welcome messages are currently **on**. Usage: !welcome on/off"
    );
    assert_eq!(welcome_command(&mut on, " off "), "Welcome messages turned OFF ❌");
    assert!(!on);
    assert_eq!(welcome_command(&mut on, "on"), "Welcome messages turned ON ✅");
    assert!(on);
    let mut w = new_welcomes();
    assert!(is_welcome_enabled(&w));
    set_welcome_enabled(&mut w, false);
    assert!(!is_welcome_enabled(&w));
}

#[test]
fn messages_earn_experience() {
    let f = FeaturesSection::default();
    assert!(earns_xp(&f, "npub1bot", Some("npub1a"), "hello"));
    assert!(!earns_xp(&f, "npub1bot", Some("npub1a"), "!ping"));
    assert!(!earns_xp(&f, "npub1bot", Some("npub1bot"), "hello"));
    assert!(!earns_xp(&f, "npub1bot", Some(""), "hello"));
    assert!(!earns_xp(&f, "npub1bot", None, "hello"));

    let mut db = Database::new();
    assert!(award_drawn_xp(&mut db, "npub1a", "c", 25, 1000).is_none());
    // Within a minute nothing happens.
    assert!(award_drawn_xp(&mut db, "npub1a", "c", 25, 1059).is_none());
    assert_eq!(db.get_user("npub1a").xp, 25);
    assert_eq!(db.get_user("npub1a").messages_sent, 1);
    assert_eq!(
        award_drawn_xp(&mut db, "npub1a", "c", 130, 1060).unwrap(),
        "🎉 nostr:npub1a reached Level 1!"
    );
    assert!(award_message_xp(&mut db, "npub1b", "c", 1000).is_none());
    let xp = db.get_user("npub1b").xp;
    assert!((15..=25).contains(&xp));
}

#[test]
fn events_are_handled() {
    let f = FeaturesSection::default();
    let auth = AuthManager::new("npub1owner", &vec![], false, None);
    let mut w = new_welcomes();
    let mut db = Database::new();
    let join = |npub: &str| BotEvent::MemberJoin {
        channel_id: "c".to_string(),
        npub: npub.to_string(),
    };
    match on_event(&mut w, &mut db, &f, Some(&auth), "npub1bot", &join("npub1a"), 0, 5) {
        Some(Outgoing::Channel(to, what)) => {
            assert_eq!(to, "c");
            assert_eq!(what, "Welcome! 🎉 Type !help to see what I can do.");
        }
        _ => panic!("a member is welcomed"),
    }
    // Once an hour.
    assert!(on_event(&mut w, &mut db, &f, None, "npub1bot", &join("npub1a"), 3599 * SEC, 5).is_none());
    assert!(on_event(&mut w, &mut db, &f, None, "npub1bot", &join("npub1a"), 3600 * SEC, 5).is_some());
    // The bot itself is switched off where it joins.
    db.set_channel_enabled("c", true, "x", 1);
    assert!(on_event(&mut w, &mut db, &f, None, "npub1bot", &join("npub1bot"), 0, 5).is_none());
    assert!(!db.is_channel_enabled("c"));
    // A reaction earns the author three to five points.
    let update = BotEvent::MessageUpdate {
        chat_id: "c".to_string(),
        author: Some("npub1a".to_string()),
        reactions: 1,
    };
    assert!(on_event(&mut w, &mut db, &f, None, "npub1bot", &update, 0, 5).is_none());
    assert!((3..=5).contains(&db.get_user("npub1a").xp));
    let removed = BotEvent::Removed { community_id: "abc".to_string() };
    match on_event(&mut w, &mut db, &f, Some(&auth), "npub1bot", &removed, 0, 5) {
        Some(Outgoing::Dm(to, what)) => {
            assert_eq!(to, "npub1owner");
            assert_eq!(what, "⚠️ I was removed from community abc");
        }
        _ => panic!("the owner is told"),
    }
    assert!(on_event(&mut w, &mut db, &f, Some(&auth), "npub1bot", &BotEvent::Message, 0, 5).is_none());
}

#[test]
fn the_help_lists_what_the_registry_names() {
    let mut f = FeaturesSection::default();
    f.ai = true;
    let help = help_text(&f);
    let rows = command_registry();
    assert_eq!(rows.len(), 62);
    for row in &rows {
        assert!(find_command(row.name).is_some());
        assert!(help.contains(&format!("  {} — {}", row.name, row.description)));
    }
}
