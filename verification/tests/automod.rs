use concord_bots::auth::AuthManager;
use concord_bots::config::AutoModSection;
use concord_bots::handlers::automod::command::automod_command;
use concord_bots::handlers::automod::enforce::{
    announcement, execute_action, is_permission_error, on_message, owner_message, Sanctioned,
};
use concord_bots::handlers::automod::engine::{fmt_ts, short_npub, AutoModEngine, AutoModState};
use concord_bots::handlers::automod::{
    caps_percentage, is_allowlisted, normalize_text, url_host, AutoModAction, AutoModVerdict,
};
use concord_bots::json;

const NOW: u64 = 1_700_000_000;

fn cfg() -> AutoModSection {
    let mut c = AutoModSection::default();
    c.dry_run_minutes = 0;
    c
}

fn fired(v: &AutoModVerdict, rule: &str) -> bool {
    v.rules_triggered.contains(&rule.to_string())
}

#[test]
fn test_normalize_text() {
    assert_eq!(normalize_text("  Hello   WORLD  "), "hello world");
    assert_eq!(normalize_text("Buy\tNow\nBuy"), "buy now buy");
}

#[test]
fn test_caps_percentage() {
    assert_eq!(caps_percentage("HELLO"), 100);
    assert_eq!(caps_percentage("hello"), 0);
    assert_eq!(caps_percentage("Hello"), 20);
    assert_eq!(caps_percentage("12345"), 0); // no letters
}

#[test]
fn test_url_host() {
    assert_eq!(url_host("https://github.com/foo/bar"), "github.com");
    assert_eq!(url_host("http://sub.example.com:8080/x"), "sub.example.com");
    assert_eq!(url_host("https://user@evil.com/path"), "evil.com");
    assert_eq!(url_host("https://spam.xyz"), "spam.xyz");
}

#[test]
fn test_is_allowlisted() {
    let allow = vec!["github.com".to_string(), "nostr.org".to_string()];
    assert!(is_allowlisted("https://github.com/x", &allow));
    assert!(is_allowlisted("https://api.github.com/x", &allow)); // subdomain
    assert!(!is_allowlisted("https://evil.com", &allow));
    assert!(!is_allowlisted("https://notgithub.com", &allow));
}

#[test]
fn test_rate_burst_detection() {
    let mut c = cfg();
    c.max_messages = 3;
    c.burst_window_secs = 10;
    let mut engine = AutoModEngine::new(&c, None, NOW);

    // First 3 messages (unique text so dedupe doesn't fire) are fine.
    for i in 0..3 {
        let v = engine.check_message(&c, "npub1spammer", &format!("msg {}", i), NOW);
        assert_eq!(v.score, 0, "message {} should not be flagged", i);
    }
    // 4th message within window → burst (count 4 > max 3).
    let v = engine.check_message(&c, "npub1spammer", "msg 4", NOW);
    assert!(fired(&v, "rate_burst"));
    assert!(v.score >= 3);
}

#[test]
fn test_duplicate_detection() {
    let mut c = cfg();
    c.max_duplicates = 3;
    c.dedupe_window_secs = 60;
    // Keep burst out of the way.
    c.max_messages = 100;
    let mut engine = AutoModEngine::new(&c, None, NOW);

    let v1 = engine.check_message(&c, "npub1dup", "buy now", NOW);
    assert!(!fired(&v1, "duplicate_content"));
    let v2 = engine.check_message(&c, "npub1dup", "buy now", NOW);
    assert!(!fired(&v2, "duplicate_content"));
    // 3rd identical → duplicate (count 3 >= max 3).
    let v3 = engine.check_message(&c, "npub1dup", "BUY NOW", NOW);
    assert!(fired(&v3, "duplicate_content"));
    assert!(v3.score >= 4);
}

#[test]
fn test_banned_keyword() {
    let mut c = cfg();
    c.banned_words = vec!["free crypto giveaway".to_string()];
    let mut engine = AutoModEngine::new(&c, None, NOW);
    let v = engine.check_message(&c, "npub1x", "Click here for a FREE CRYPTO GIVEAWAY!!!", NOW);
    assert!(fired(&v, "banned_keyword"));
    assert!(v.score >= 5);
    // Banned keyword alone (score 5) → kick threshold.
    assert_eq!(v.action, AutoModAction::Kick);
}

#[test]
fn test_banned_regex_pattern() {
    let mut c = cfg();
    c.banned_patterns = vec![r"(?i)t\.me/\w+".to_string()];
    let mut engine = AutoModEngine::new(&c, None, NOW);
    let v = engine.check_message(&c, "npub1x", "join my telegram t.me/scamchannel", NOW);
    assert!(fired(&v, "banned_keyword"));
    assert!(v.score >= 5);
}

#[test]
fn test_link_filtering_new_vs_old() {
    let mut c = cfg();
    c.link_action = "flag".to_string();
    c.link_allowlist = vec!["github.com".to_string()];
    let mut engine = AutoModEngine::new(&c, None, NOW);

    // Allowlisted link → no score.
    let v = engine.check_message(&c, "npub1a", "check https://github.com/x", NOW);
    assert!(!fired(&v, "link_filter"));

    // Non-allowlisted link → flagged (+2 for established user).
    let v = engine.check_message(&c, "npub1b", "visit https://spam.xyz/promo", NOW);
    assert!(fired(&v, "link_filter"));
    assert_eq!(v.score, 2);

    // Someone new scores twice as much.
    engine.record_join("npub1c", NOW);
    let v = engine.check_message(&c, "npub1c", "visit https://spam.xyz/promo", NOW);
    assert_eq!(v.score, 4);
}

#[test]
fn test_mention_spam() {
    let mut c = cfg();
    c.max_mentions = 2;
    let mut engine = AutoModEngine::new(&c, None, NOW);
    let text = "hey nostr:npub1aaaaaaaaaaaaaaaaaaaaa npub1bbbbbbbbbbbbbbbbbbbbb npub1ccccccccccccccccccccc";
    let v = engine.check_message(&c, "npub1x", text, NOW);
    assert!(fired(&v, "mention_spam"));
    assert!(v.score >= 3);
}

#[test]
fn test_new_user_flooding() {
    let mut c = cfg();
    c.new_user_grace_secs = 120;
    c.new_user_max_msgs = 2;
    c.max_messages = 100; // keep burst out of the way
    let mut engine = AutoModEngine::new(&c, None, NOW);

    engine.record_join("npub1new", NOW);
    // First 2 messages within grace are OK.
    for i in 0..2 {
        let v = engine.check_message(&c, "npub1new", &format!("hi {}", i), NOW);
        assert!(!fired(&v, "new_user_flooding"));
    }
    // 3rd message during grace → flooding.
    let v = engine.check_message(&c, "npub1new", "hi 3", NOW);
    assert!(fired(&v, "new_user_flooding"));
}

#[test]
fn test_scoring_thresholds() {
    let c = cfg(); // warn=3, kick=5, ban=7
    let mut engine = AutoModEngine::new(&c, None, NOW);

    // Wall of text alone → +1 → below warn → nothing.
    let mut long = String::from("a");
    long.push_str(&"b".repeat(c.max_msg_length + 10));
    let v = engine.check_message(&c, "npub1a", &long, NOW);
    assert_eq!(v.action, AutoModAction::Nothing);
    assert!(v.score >= 1);
}

#[test]
fn test_ban_threshold() {
    let mut c = cfg();
    // Two banned words → 5 + 5 = 10 ≥ ban_threshold(7).
    c.banned_words = vec!["scam".to_string(), "giveaway".to_string()];
    let mut engine = AutoModEngine::new(&c, None, NOW);
    let v = engine.check_message(&c, "npub1x", "scam giveaway now", NOW);
    assert!(v.score >= 7);
    assert_eq!(v.action, AutoModAction::Ban);
}

#[test]
fn test_escalation_bumps_action() {
    let mut c = cfg();
    // A single non-allowlisted link = score 2 (below warn=3), so on its own
    // it would be nothing. Force warns by lowering the warn threshold to 2.
    c.warn_threshold = 2;
    c.kick_threshold = 50;
    c.ban_threshold = 100;
    c.escalation_kick_after = 2;
    c.escalation_ban_after = 3;
    c.link_allowlist = vec![];
    let mut engine = AutoModEngine::new(&c, None, NOW);

    // 1st violation → warn.
    let v1 = engine.check_message(&c, "npub1esc", "https://spam.xyz/a", NOW);
    assert_eq!(v1.action, AutoModAction::Warn);
    engine.record_violation("npub1esc", &v1, NOW);

    // 2nd violation → escalated to kick.
    let v2 = engine.check_message(&c, "npub1esc", "https://spam.xyz/b", NOW);
    assert_eq!(v2.action, AutoModAction::Kick);
    assert!(fired(&v2, "escalation"));
    engine.record_violation("npub1esc", &v2, NOW);

    // 3rd violation → escalated to ban.
    let v3 = engine.check_message(&c, "npub1esc", "https://spam.xyz/c", NOW);
    assert_eq!(v3.action, AutoModAction::Ban);
}

#[test]
fn test_immunity_check() {
    let c = cfg();
    let engine = AutoModEngine::new(&c, None, NOW);
    let nobody = AuthManager::new("npub1owner", &vec![], false, None);
    let friend = AuthManager::new("npub1owner", &vec!["npub1friend".to_string()], false, None);
    let immune = |auth: &AuthManager, npub: &str, admin: bool, strict: bool| {
        engine.is_immune(Some(auth), "npub1bot", npub, None, admin, strict)
    };

    assert!(immune(&nobody, "npub1bot", false, false));
    assert!(immune(&nobody, "npub1owner", false, true)); // owner immune even in strict
    assert!(immune(&friend, "npub1friend", false, false));
    assert!(!immune(&friend, "npub1friend", false, true)); // strict: friend checked
    assert!(immune(&nobody, "npub1mod", true, true)); // admin immune
    assert!(!immune(&nobody, "npub1rando", false, false));
    assert!(!immune(&nobody, "", true, false));
}

#[test]
fn test_reset_user() {
    let mut c = cfg();
    c.banned_words = vec!["spam".to_string()];
    let mut engine = AutoModEngine::new(&c, None, NOW);
    let _ = engine.check_message(&c, "npub1r", "spam", NOW);
    assert!(engine.reset_user("npub1r"));
    assert!(!engine.reset_user("npub1r"));
    // After reset, dedupe/violation history is cleared.
    assert!(!engine.reset_user("npub1nonexistent"));
}

#[test]
fn block_mode_warns_for_one_link() {
    let mut c = cfg();
    c.link_action = "block".to_string();
    let mut engine = AutoModEngine::new(&c, None, NOW);
    let v = engine.check_message(&c, "npub1a", "http://spam.xyz", NOW);
    assert_eq!(v.score, 3);
    assert_eq!(v.action, AutoModAction::Warn);
    c.link_action = "off".to_string();
    let v = engine.check_message(&c, "npub1b", "http://spam.xyz", NOW);
    assert_eq!(v.score, 0);
}

#[test]
fn capitals_and_old_messages() {
    let c = cfg();
    let mut engine = AutoModEngine::new(&c, None, NOW);
    let v = engine.check_message(&c, "npub1a", "THIS IS A VERY LOUD MESSAGE", NOW);
    assert_eq!(v.rules_triggered, vec!["caps".to_string()]);
    for _ in 0..5 {
        engine.check_message(&c, "npub1b", "one and the same", NOW);
    }
    let v = engine.check_message(&c, "npub1b", "one and the same", NOW);
    assert_eq!(v.rules_triggered, vec!["rate_burst".to_string(), "duplicate_content".to_string()]);
    assert_eq!(v.score, 7);
    // Much later the slate is clean.
    let v = engine.check_message(&c, "npub1b", "one and the same", NOW + 1000);
    assert_eq!(v.score, 0);
}

#[test]
fn bad_patterns_are_skipped() {
    let mut c = cfg();
    c.banned_patterns = vec!["(".to_string(), "sp[ae]m".to_string()];
    let mut engine = AutoModEngine::new(&c, None, NOW);
    assert_eq!(engine.list_patterns(), vec!["sp[ae]m".to_string()]);
    assert_eq!(engine.check_message(&c, "npub1a", "spem", NOW).score, 5);
}

#[test]
fn dry_run_lasts_for_its_minutes() {
    let mut c = cfg();
    c.dry_run_minutes = 2;
    let engine = AutoModEngine::new(&c, None, NOW);
    assert!(engine.in_dry_run(&c, NOW + 119));
    assert!(!engine.in_dry_run(&c, NOW + 120));
    c.dry_run_minutes = 0;
    assert!(!engine.in_dry_run(&c, NOW));
}

#[test]
fn words_and_domains_come_and_go() {
    let c = cfg();
    let mut engine = AutoModEngine::new(&c, None, NOW);
    assert!(engine.add_word("  Spam "));
    assert!(!engine.add_word("spam"));
    assert!(!engine.add_word("   "));
    assert_eq!(engine.list_words(), vec!["spam".to_string()]);
    assert!(engine.remove_word("SPAM"));
    assert!(!engine.remove_word("spam"));
    assert!(engine.list_words().is_empty());
    assert!(engine.add_allowlist("GitHub.com"));
    assert!(!engine.add_allowlist("github.com"));
    assert_eq!(engine.list_allowlist(), vec!["github.com".to_string()]);
    assert!(engine.remove_allowlist("github.COM"));
    assert!(!engine.remove_allowlist("github.com"));
}

#[test]
fn enforcement_records_counts_and_logs() {
    let mut c = cfg();
    c.banned_words = vec!["spam".to_string()];
    let mut engine = AutoModEngine::new(&c, None, NOW);
    engine.set_enabled(true, NOW);
    let v = on_message(&mut engine, &c, None, "npub1bot", "npub1a", None, false, "spam", NOW)
        .unwrap();
    let plan =
        execute_action(&mut engine, &c, "npub1a", "spam", "chan", &v, "then", NOW + 60).unwrap();
    assert!(plan.enforce && plan.delete && plan.save);
    assert_eq!(plan.sanction, AutoModAction::Kick);
    assert_eq!(
        json::write(&plan.audit),
        "{\"action\":\"kick\",\"channel\":\"chan\",\"dry_run\":false,\"message_snippet\":\"spam\",\"npub\":\"npub1a\",\"rules\":[\"banned_keyword\"],\"score\":5,\"timestamp\":\"then\"}"
    );
    assert_eq!(engine.stats(), (1, 0, 1, 0));
    // The next save is not due yet.
    let plan =
        execute_action(&mut engine, &c, "npub1a", "spam", "chan", &v, "then", NOW + 61).unwrap();
    assert!(!plan.save);
}

#[test]
fn dry_run_enforces_nothing() {
    let mut c = cfg();
    c.dry_run_minutes = 5;
    c.banned_words = vec!["spam".to_string()];
    let mut engine = AutoModEngine::new(&c, None, NOW);
    let v = engine.check_message(&c, "npub1a", "spam", NOW);
    assert!(v.dry_run);
    let plan = execute_action(&mut engine, &c, "npub1a", "spam", "chan", &v, "t", NOW).unwrap();
    assert!(!plan.enforce && !plan.delete);
    assert_eq!(plan.sanction, AutoModAction::Nothing);
    assert_eq!(engine.stats(), (1, 0, 0, 0));
    assert_eq!(engine.history(None, 15).len(), 1);
}

#[test]
fn disabled_or_exempt_is_not_screened() {
    let mut c = cfg();
    c.banned_words = vec!["spam".to_string()];
    let mut engine = AutoModEngine::new(&c, None, NOW);
    assert!(on_message(&mut engine, &c, None, "b", "npub1a", None, false, "spam", NOW).is_none());
    engine.set_enabled(true, NOW);
    assert!(on_message(&mut engine, &c, None, "b", "npub1a", None, true, "spam", NOW).is_none());
    assert!(on_message(&mut engine, &c, None, "b", "npub1a", None, false, "fine", NOW).is_none());
    assert!(on_message(&mut engine, &c, None, "b", "npub1a", None, false, "spam", NOW).is_some());
}

#[test]
fn announcements_follow_the_outcome() {
    let c = cfg();
    let v = AutoModVerdict {
        score: 9,
        rules_triggered: vec!["caps".to_string(), "links".to_string()],
        action: AutoModAction::Ban,
        dry_run: false,
    };
    assert_eq!(
        announcement(&c, "npub1a", &v, &Sanctioned::Done).unwrap(),
        "🔨 Banned npub1a for spam (caps,links)."
    );
    assert_eq!(
        owner_message(&c, "npub1a", &v, "chan", &Sanctioned::Done).unwrap(),
        "🔨 auto-mod banned npub1a for spam (score 9, rules: caps,links) in chan."
    );
    let gap = Sanctioned::Failed("PermissionDenied".to_string());
    assert_eq!(
        announcement(&c, "npub1a", &v, &gap).unwrap(),
        "⚠️ Detected spam from npub1a (score 9) but I lack permission to ban. Rules: caps,links"
    );
    assert_eq!(
        owner_message(&c, "npub1a", &v, "chan", &gap).unwrap(),
        "⚠️ auto-mod wanted to ban npub1a for spam (score 9, caps,links) but I lack permission in community chan."
    );
    assert!(announcement(&c, "npub1a", &v, &Sanctioned::NoCommunity).is_none());
    assert!(announcement(&c, "npub1a", &v, &Sanctioned::IsOwner).is_none());
    assert!(announcement(&c, "npub1a", &v, &Sanctioned::Failed("timeout".to_string())).is_none());
    let warn = AutoModVerdict { action: AutoModAction::Warn, ..v };
    assert_eq!(
        announcement(&c, "npub1a", &warn, &Sanctioned::Done).unwrap(),
        "🚫 npub1a — message removed for spam (caps,links). Please knock it off."
    );
    assert!(owner_message(&c, "npub1a", &warn, "chan", &Sanctioned::Done).is_none());
}

#[test]
fn permission_errors_are_told_apart() {
    assert!(is_permission_error("Error: Must OUTRANK the target"));
    assert!(is_permission_error("not allowed"));
    assert!(!is_permission_error("connection reset"));
}

#[test]
fn state_survives_a_restart() {
    let mut c = cfg();
    c.banned_words = vec!["spam".to_string()];
    let mut engine = AutoModEngine::new(&c, None, NOW);
    let v = engine.check_message(&c, "npub1a", "spam", NOW);
    engine.record_violation("npub1a", &v, NOW);
    engine.record_join("npub1b", NOW);
    let saved: AutoModState = engine.persist();
    let again = AutoModEngine::new(&c, Some(saved), NOW + 5);
    assert_eq!(again.stats(), (2, 0, 1, 0));
    assert_eq!(
        again.history(Some("npub1a"), 15),
        vec!["2023-11-14 22:13 UTC — npub1a (score 5, kick) [banned_keyword]".to_string()]
    );
    assert!(again.history(Some("npub1b"), 15).is_empty());
    engine.forget_user("npub1a");
    assert_eq!(engine.stats().0, 1);
}

#[test]
fn history_is_latest_first() {
    let c = cfg();
    let mut engine = AutoModEngine::new(&c, None, NOW);
    for (who, at) in [("npub1a", 10), ("npub1b", 30), ("npub1c", 20)] {
        let v = AutoModVerdict {
            score: 3,
            rules_triggered: vec!["r".to_string()],
            action: AutoModAction::Warn,
            dry_run: false,
        };
        engine.record_violation(who, &v, at);
    }
    let h = engine.history(None, 2);
    assert_eq!(
        h,
        vec![
            "1970-01-01 00:00 UTC — npub1b (score 3, warn) [r]".to_string(),
            "1970-01-01 00:00 UTC — npub1c (score 3, warn) [r]".to_string(),
        ]
    );
}

#[test]
fn names_and_times_are_short() {
    assert_eq!(short_npub("npub1234567890abcdef"), "npub123456…cdef");
    assert_eq!(short_npub("npub1short"), "npub1short");
    assert_eq!(fmt_ts(0), "1970-01-01 00:00 UTC");
    assert_eq!(fmt_ts(9_000_000_000_000_000_000), "9000000000000000000");
}

#[test]
fn command_switches_and_refuses() {
    let c = cfg();
    let mut engine = AutoModEngine::new(&c, None, NOW);
    let mut run = |args: &str, owner: bool| {
        automod_command(&mut engine, &c, args, owner, NOW).unwrap()
    };
    assert_eq!(run("on", false).0, "⛔ Owner only.");
    assert_eq!(run("on", true).0, "🛡️ Auto-mod turned ON ✅");
    assert_eq!(run("off", true).0, "🛡️ Auto-mod turned OFF ❌");
    assert_eq!(run("words add Free  Stuff", true).0, "✅ Added banned word: \"free  stuff\"");
    assert_eq!(run("words add free  stuff", true).0, "ℹ️ That word is already banned (or empty).");
    assert_eq!(run("words add", true).0, "Usage: !automod words add <word or phrase>");
    assert_eq!(run("words", true).0, "📝 Banned filters:\nWords (1):\n  • free  stuff");
    assert_eq!(run("words rm free  stuff", true).0, "✅ Removed banned word: \"free  stuff\"");
    assert_eq!(run("words rm x", true).0, "ℹ️ That word wasn't in the banned list.");
    assert_eq!(run("words list", false).0, "📝 No banned words or patterns configured.");
    assert_eq!(run("words what", true).0, "Usage: !automod words <add|remove|list> [word]");
    assert_eq!(run("allowlist add GitHub.com", true).0, "✅ Allowlisted domain: github.com");
    assert_eq!(run("allowlist", false).0, "🔗 Allowlisted domains (1):\n  • github.com");
    assert_eq!(run("allowlist rm github.com", true).0, "✅ Removed allowlist domain: github.com");
    assert_eq!(run("allowlist rm github.com", true).0, "ℹ️ That domain wasn't allowlisted.");
    assert_eq!(run("allowlist list", true).0, "🔗 Link allowlist is empty.");
    assert_eq!(run("history", false).0, "📋 No auto-mod actions on record.");
    assert_eq!(run("reset npub1zz", true), ("ℹ️ No tracked history for npub1zz.".to_string(), false));
    assert_eq!(run("reset zz", true).0, "Usage: !automod reset <npub>");
    assert!(run("nonsense", true).0.starts_with("Usage: !automod <on|off|status"));
    assert!(run("", false).0.starts_with("🛡️ Auto-mod status: disabled ❌\n• strict_mode: false\n• burst: 5 msgs / 10s\n"));
    assert!(run("status", false).0.ends_with("• tracked users: 0\n• actions taken — warns: 0, kicks: 0, bans: 0"));
}

#[test]
fn command_shows_and_resets_history() {
    let mut c = cfg();
    c.banned_words = vec!["spam".to_string()];
    let mut engine = AutoModEngine::new(&c, None, NOW);
    let v = engine.check_message(&c, "npub1a", "spam", NOW);
    engine.record_violation("npub1a", &v, NOW);
    assert_eq!(
        automod_command(&mut engine, &c, "history nostr:npub1a", false, NOW).unwrap().0,
        "📋 Recent auto-mod actions for npub1a:\n  • 2023-11-14 22:13 UTC — npub1a (score 5, kick) [banned_keyword]"
    );
    assert_eq!(
        automod_command(&mut engine, &c, "reset npub1a", true, NOW).unwrap(),
        ("✅ Reset violation history for npub1a.".to_string(), true)
    );
    assert_eq!(
        automod_command(&mut engine, &c, "history", false, NOW).unwrap().0,
        "📋 No auto-mod actions on record."
    );
}

#[test]
fn hosts_behind_names_and_ports() {
    assert_eq!(url_host("https://github.com:x@evil.com/"), "evil.com");
    assert_eq!(url_host("https://a@b@evil.com:80/x@github.com"), "evil.com");
    assert_eq!(url_host("https://evil.com?x=@github.com"), "evil.com");
    assert_eq!(url_host("https://evil.com#@github.com"), "evil.com");
    let allow = vec!["github.com".to_string()];
    assert!(!is_allowlisted("https://github.com:x@evil.com/", &allow));
    assert!(is_allowlisted("https://evil.com:x@github.com/", &allow));
}

#[test]
fn window_opens_when_switched_on() {
    let mut c = cfg();
    c.dry_run_minutes = 10;
    c.enabled = false;
    let mut engine = AutoModEngine::new(&c, None, 0);
    engine.set_enabled(true, 3600);
    assert!(engine.in_dry_run(&c, 3601));
    assert!(engine.in_dry_run(&c, 4199));
    assert!(!engine.in_dry_run(&c, 4200));
    // Switching on what is on does not open the window again.
    engine.set_enabled(true, 4200);
    assert!(!engine.in_dry_run(&c, 4201));
    let said = automod_command(&mut engine, &c, "off", true, 4300).unwrap().0;
    assert_eq!(said, "🛡️ Auto-mod turned OFF ❌");
    let said = automod_command(&mut engine, &c, "on", true, 4300).unwrap().0;
    assert!(said.starts_with("🛡️ Auto-mod turned ON ✅"));
    assert!(said.contains("no kicks/bans yet"));
    assert!(engine.in_dry_run(&c, 4301));
}

#[test]
fn owner_is_told_of_every_ban() {
    let mut c = cfg();
    let v = AutoModVerdict {
        score: 9,
        rules_triggered: vec!["caps".to_string()],
        action: AutoModAction::Ban,
        dry_run: false,
    };
    let outcomes = [
        Sanctioned::Done,
        Sanctioned::NoCommunity,
        Sanctioned::IsOwner,
        Sanctioned::Failed("timeout".to_string()),
    ];
    for outcome in &outcomes {
        assert_eq!(
            owner_message(&c, "npub1a", &v, "chan", outcome).unwrap(),
            "🔨 auto-mod banned npub1a for spam (score 9, rules: caps) in chan."
        );
    }
    let kick = AutoModVerdict { action: AutoModAction::Kick, ..v };
    for outcome in &outcomes {
        assert!(owner_message(&c, "npub1a", &kick, "chan", outcome).is_none());
    }
    let gap = Sanctioned::Failed("denied".to_string());
    assert!(owner_message(&c, "npub1a", &kick, "chan", &gap).is_some());
    c.announce_dm_owner = false;
    assert!(owner_message(&c, "npub1a", &kick, "chan", &gap).is_none());
}

#[test]
fn history_of_one_user_needs_no_other_name() {
    let c = cfg();
    let mut engine = AutoModEngine::new(&c, None, NOW);
    let v = AutoModVerdict {
        score: 3,
        rules_triggered: vec!["r".to_string()],
        action: AutoModAction::Warn,
        dry_run: false,
    };
    engine.record_violation("npub1a", &v, 10);
    // Nothing is shown of a user without violations, however named.
    engine.record_join("xéééééééééé", 10);
    assert!(automod_command(&mut engine, &c, "history", false, NOW).is_some());
    engine.record_violation("xéééééééééé", &v, 10);
    assert!(automod_command(&mut engine, &c, "history", false, NOW).is_none());
    assert_eq!(
        automod_command(&mut engine, &c, "history npub1a", false, NOW).unwrap().0,
        "📋 Recent auto-mod actions for npub1a:\n  • 1970-01-01 00:00 UTC — npub1a (score 3, warn) [r]"
    );
}
