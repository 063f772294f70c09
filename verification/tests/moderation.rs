use concord_bots::config::BotConfig;
use concord_bots::git_monitor::format::{CommitInfo, ReleaseInfo};
use concord_bots::git_monitor::github::{update_rate_limit, RateLimit};
use concord_bots::git_monitor::poll::{
    commits_arrived, commits_since, next_poll, release_arrived, resolve_token,
};
use concord_bots::git_monitor::store::SubscriptionStore;
use concord_bots::handlers::ai_bridge::{
    ai_config, ask, bearer, chat_answer, chat_body, image, image_body, image_reply, image_url,
    is_enabled, openai_key, openclaw_answer, openclaw_args, sentiment, summarize, uses_openai,
};
use concord_bots::handlers::git_cmds::{
    git_command, git_command_when_off, git_list_command, git_remove_command,
};
use concord_bots::handlers::moderation_cmds::{
    ban_command, grantmod_command, is_permission_error, kick_command, leave_command, leave_reply,
    member_reply, mods_command, refuse_standing, revokemod_command, unban_command, warn_command,
    warnings_command, Failure, MemberAction, Warning,
};
use concord_bots::handlers::thread::{
    after_attempt, check_comment, comment_next, comment_start, parent_author, reply_as_thread,
    whole_seconds, CommentAction, CommentCheck, CommentStage, ThreadStep,
};
use concord_bots::json;

const NOW: i64 = 1_700_000_000;

#[test]
fn members_are_named() {
    assert_eq!(kick_command("nostr:npub1a", true, "npub1bot"), Ok("npub1a".to_string()));
    assert_eq!(
        kick_command("", true, "npub1bot"),
        Err("Usage: !kick <npub>\nExample: !kick nostr:npub1abc...  OR  !kick npub1abc...".to_string())
    );
    assert_eq!(
        ban_command("bob", true, "npub1bot"),
        Err("⚠️ That doesn't look like a valid npub. Use npub1... or nostr:npub1...".to_string())
    );
    assert_eq!(
        ban_command("npub1a", false, "npub1bot"),
        Err("⚠️ This command can only be used in a community channel.".to_string())
    );
    assert_eq!(
        kick_command("npub1bot", true, "npub1bot"),
        Err("⚠️ I can't kick myself!".to_string())
    );
    assert_eq!(ban_command("npub1bot", true, "npub1bot"), Err("⚠️ I can't ban myself!".to_string()));
    // Nothing else asks who the bot is.
    assert!(unban_command("npub1bot", true, "npub1bot").is_ok());
    assert!(grantmod_command("npub1bot", true, "npub1bot").is_ok());
    assert!(revokemod_command("npub1bot", true, "npub1bot").is_ok());
}

#[test]
fn standing_protects() {
    let why = |what, owner, admin| refuse_standing(what, "npub1a", owner, admin);
    assert_eq!(why(MemberAction::Kick, true, false).unwrap(), "⚠️ I can't kick the community owner.");
    assert_eq!(why(MemberAction::Ban, true, true).unwrap(), "⚠️ I can't ban the community owner.");
    assert!(why(MemberAction::Kick, false, true).is_none());
    assert!(why(MemberAction::Unban, true, true).is_none());
    assert_eq!(why(MemberAction::GrantMod, false, true).unwrap(), "ℹ️ npub1a is already an admin.");
    assert!(why(MemberAction::GrantMod, false, false).is_none());
    assert_eq!(
        why(MemberAction::RevokeMod, true, true).unwrap(),
        "⚠️ Cannot revoke admin from the community owner."
    );
    assert_eq!(why(MemberAction::RevokeMod, false, false).unwrap(), "ℹ️ npub1a is not an admin.");
    assert!(why(MemberAction::RevokeMod, false, true).is_none());
}

#[test]
fn outcomes_are_told() {
    let denied = || Some(Failure { detail: "PermissionDenied", shown: "denied" });
    let lost = || Some(Failure { detail: "Timeout", shown: "timed out" });
    assert_eq!(
        member_reply(MemberAction::Kick, "npub1a", None),
        "👢 Kicked npub1a from the community. (They can rejoin.)"
    );
    assert_eq!(member_reply(MemberAction::Kick, "npub1a", lost()), "⚠️ Kick failed: timed out");
    assert_eq!(
        member_reply(MemberAction::Ban, "npub1a", denied()),
        "⚠️ I don't have permission to ban that member. Need BAN capability + higher rank."
    );
    assert_eq!(
        member_reply(MemberAction::Unban, "npub1a", lost()),
        "⚠️ Could not unban npub1a. They may not be banned or I lack permission."
    );
    assert_eq!(
        member_reply(MemberAction::GrantMod, "npub1a", None),
        "✅ Granted admin role to npub1a."
    );
    assert_eq!(
        member_reply(MemberAction::RevokeMod, "npub1a", lost()),
        "⚠️ Could not revoke admin from npub1a: timed out"
    );
    assert!(is_permission_error("MANAGE_ROLES needed"));
    assert!(!is_permission_error("timeout"));
}

#[test]
fn warnings_pile_up() {
    let mut all: Vec<Warning> = Vec::new();
    assert_eq!(
        warn_command(&mut all, "npub1a  Be nice ", "npub1bot", NOW),
        "⚠️ Warning issued to npub1a (warning #1): Be nice"
    );
    warn_command(&mut all, "npub1b x", "npub1bot", NOW);
    assert_eq!(
        warn_command(&mut all, "nostr:npub1a again", "npub1bot", NOW + 1),
        "⚠️ Warning issued to npub1a (warning #2): again"
    );
    assert_eq!(all.len(), 3);
    assert_eq!(all[0].timestamp, "2023-11-14 22:13:20 UTC");
    assert_eq!(all[0].warned_by, "npub1bot");
    assert!(warn_command(&mut all, "", "b", NOW).starts_with("Usage: !warn"));
    assert!(warn_command(&mut all, "bob x", "b", NOW).starts_with("⚠️ That doesn't look"));
    assert!(warn_command(&mut all, "npub1a", "b", NOW).starts_with("⚠️ Please provide a reason."));
    assert_eq!(all.len(), 3);
    assert_eq!(
        warnings_command(&all, "npub1a"),
        "📋 Warnings for npub1a (2):\n  1. Be nice (2023-11-14 22:13:20 UTC)\n  2. again (2023-11-14 22:13:21 UTC)"
    );
    assert_eq!(warnings_command(&all, "npub1c"), "📋 No warnings on record for npub1c.");
    assert!(warnings_command(&all, "").starts_with("Usage: !warnings"));
}

#[test]
fn leaving_and_roles() {
    assert_eq!(leave_command(Some("c")), Ok("👋 Leaving community... (c)".to_string()));
    assert!(leave_command(None).is_err());
    assert_eq!(leave_reply(None), "✅ Successfully left the community. Goodbye! 👋");
    assert_eq!(leave_reply(Some("X")), "⚠️ Could not leave the community: X");
    let roles = json::read("{\"r\": [1]}").unwrap();
    assert_eq!(mods_command(Some(Ok(&roles))), "📋 Community roles:\n```{\"r\":[1]}```");
    assert_eq!(mods_command(Some(Err("X"))), "⚠️ Could not fetch roles: X");
    assert!(mods_command(None).starts_with("⚠️ This command can only be used"));
}

#[test]
fn subscriptions_come_and_go() {
    let mut subs = SubscriptionStore::new();
    let mut git = |subs: &mut SubscriptionStore, args: &str| git_command(subs, "c", "npub1a", args, 2, NOW).0;
    assert!(git(&mut subs, "").starts_with("📦 Git Monitor commands:\n"));
    assert_eq!(
        git(&mut subs, "frob"),
        "⚠️ Unknown !git subcommand \"frob\". Try: !git add, !git list, !git remove, !git poll"
    );
    assert!(git(&mut subs, "add").contains("!git add gitlab owner/repo"));
    assert_eq!(
        git(&mut subs, "list"),
        "📦 No repo subscriptions in this channel.\nUse !git add <url|owner/repo> to subscribe."
    );
    assert_eq!(git(&mut subs, "poll"), "📦 No subscriptions in this channel to poll.");
    assert_eq!(
        git(&mut subs, "add rust-lang/rust"),
        "✅ Subscribed to GitHub rust-lang/rust (https://github.com/rust-lang/rust)\nNew commits and releases will be announced here automatically.\nUse !git remove rust-lang/rust to unsubscribe."
    );
    assert_eq!(
        git(&mut subs, "add rust-lang/rust"),
        "ℹ️ Already subscribed to rust-lang/rust in this channel."
    );
    assert!(git(&mut subs, "add gitlab a/b").starts_with("✅ Subscribed to GitLab a/b"));
    assert_eq!(
        git(&mut subs, "add c/d"),
        "⚠️ This channel already has 2 subscriptions (max: 2). Use !git remove to free up space."
    );
    subs.set_last_commit_sha(1, "abc", NOW);
    assert_eq!(
        git_list_command(&subs, "c"),
        "📦 Repo subscriptions in this channel (2)\n1. 🐙 rust-lang/rust — https://github.com\n2. 🦊 a/b — https://gitlab.com (initializing…)\n\nUse !git remove <number|slug> to unsubscribe."
    );
    assert!(matches!(git_command(&mut subs, "c", "npub1a", "poll", 2, NOW), (r, polled) if polled.len() == 2 && r == "🔄 Force-polling 2 subscriptions…"));
    assert_eq!(
        git_remove_command(&mut subs, "c", "0"),
        "⚠️ Numbers start at 1. Use !git list to see positions."
    );
    assert_eq!(
        git_remove_command(&mut subs, "c", "3"),
        "⚠️ No subscription #3. This channel has 2 repo(s). Use !git list to see them."
    );
    assert_eq!(git_remove_command(&mut subs, "c", "1"), "✅ Removed rust-lang/rust (was #1)");
    assert_eq!(
        git_remove_command(&mut subs, "c", "gitlab a/b"),
        "✅ Unsubscribed from GitLab a/b."
    );
    assert_eq!(
        git_remove_command(&mut subs, "c", "a/b"),
        "⚠️ No subscription for a/b in this channel."
    );
}

#[test]
fn a_monitor_that_is_off_still_explains_itself() {
    let off = "⚠️ Git monitor is not initialized.";
    assert!(git_command_when_off("").starts_with("📦 Git Monitor commands:"));
    assert!(git_command_when_off("add").starts_with("Usage: !git add"));
    assert!(git_command_when_off("rm ").starts_with("Usage: !git remove"));
    assert!(git_command_when_off("frob").starts_with("⚠️ Unknown !git subcommand"));
    assert_eq!(git_command_when_off("add a/b"), off);
    assert_eq!(git_command_when_off("remove 1"), off);
    assert_eq!(git_command_when_off("list"), off);
    assert_eq!(git_command_when_off("poll"), off);
}

fn commit(sha: &str) -> CommitInfo {
    CommitInfo {
        sha: sha.to_string(),
        message: format!("work on {}", sha),
        author: "ann".to_string(),
        authored_at: None,
    }
}

#[test]
fn new_commits_are_announced_once() {
    let mut subs = SubscriptionStore::new();
    git_command(&mut subs, "c", "npub1a", "add a/b", 5, NOW);
    let sub = subs.list_all().remove(0);
    // The first look only remembers.
    assert!(commits_arrived(&mut subs, &sub, &vec![commit("1111111")], true, NOW).is_none());
    let sub = subs.list_all().remove(0);
    assert_eq!(sub.last_commit_sha.as_deref(), Some("1111111"));
    let fetched = vec![commit("3333333"), commit("2222222"), commit("1111111")];
    let fresh = commits_since(&fetched, "1111111");
    assert_eq!(
        fresh.iter().map(|c| c.sha.as_str()).collect::<Vec<_>>(),
        vec!["2222222", "3333333"]
    );
    let said = commits_arrived(&mut subs, &sub, &fetched, true, NOW).unwrap();
    assert!(said.contains("2222222") && said.contains("3333333") && !said.contains("1111111"));
    let sub = subs.list_all().remove(0);
    assert_eq!(sub.last_commit_sha.as_deref(), Some("3333333"));
    assert!(commits_arrived(&mut subs, &sub, &fetched, true, NOW).is_none());
}

#[test]
fn new_releases_are_announced_once() {
    let mut subs = SubscriptionStore::new();
    git_command(&mut subs, "c", "npub1a", "add a/b", 5, NOW);
    let release = |tag: &str| ReleaseInfo {
        tag: tag.to_string(),
        name: None,
        body: None,
        html_url: "https://x".to_string(),
    };
    let sub = subs.list_all().remove(0);
    release_arrived(&mut subs, &sub, Some(&release("v1")), NOW);
    let sub = subs.list_all().remove(0);
    assert_eq!(sub.last_release_tag.as_deref(), Some("v1"));
    assert!(release_arrived(&mut subs, &sub, Some(&release("v1")), NOW).is_none());
    assert!(release_arrived(&mut subs, &sub, None, NOW).is_none());
    assert!(release_arrived(&mut subs, &sub, Some(&release("v2")), NOW).unwrap().contains("v2"));
}

#[test]
fn polls_stop_when_the_limit_is_low() {
    let mut limit = RateLimit::default();
    assert_eq!(next_poll(0, 2, &limit), Some(0));
    update_rate_limit(&mut limit, Some("5"));
    assert_eq!(next_poll(1, 2, &limit), Some(1));
    update_rate_limit(&mut limit, Some("4"));
    assert_eq!(next_poll(1, 2, &limit), None);
    assert_eq!(resolve_token(Some("env"), "cfg"), Some("env".to_string()));
    assert_eq!(resolve_token(Some(""), "cfg"), Some("cfg".to_string()));
    assert_eq!(resolve_token(None, ""), None);
}

#[test]
fn ai_is_configured() {
    let config = BotConfig::default();
    assert!(!is_enabled(config.custom.as_ref()));
    let custom = json::read("{\"ai\":{\"enabled\":true,\"provider\":\"openai\",\"model\":\"gpt\",\"api_key\":\"k\"}}").unwrap();
    assert!(is_enabled(Some(&custom)));
    let cfg = ai_config(Some(&custom), Some("env"), None);
    assert!(uses_openai(&cfg));
    assert_eq!(openai_key(&cfg), Ok("k".to_string()));
    assert_eq!(cfg.system_prompt, "You are a helpful Vector bot. Keep responses concise.");
    let plain = ai_config(None, None, Some("o"));
    assert_eq!((plain.provider.as_str(), plain.model.as_str()), ("openclaw", "default"));
    assert_eq!(plain.api_key.as_deref(), Some("o"));
    assert_eq!(
        openai_key(&ai_config(None, None, None)),
        Err("OpenAI API key not configured (set ai.api_key or AI_API_KEY)".to_string())
    );
    assert!(matches!(image("a cat", &plain), Err(e) if e.starts_with("⚠️ Image generation requires `provider = \"openai\"`")));
    assert_eq!(image(" a cat ", &cfg), Ok("a cat".to_string()));
    assert_eq!(image("", &cfg), Err("Usage: !image <prompt>".to_string()));
}

#[test]
fn ai_prompts_and_answers() {
    assert_eq!(ask(" Why? "), Ok("Why?".to_string()));
    assert_eq!(ask(""), Err("Usage: !ask <question>".to_string()));
    assert_eq!(summarize("x"), Ok("Summarize this: x".to_string()));
    assert_eq!(sentiment("x"), Ok("Analyze the sentiment of this: x".to_string()));
    assert_eq!(image_reply("u"), "🖼️ u");
    assert_eq!(openclaw_args("m", "s"), vec!["chat", "--system", "s", "--message", "m"]);
    assert_eq!(openclaw_answer("m", Some(" hi\n")), "hi");
    assert_eq!(
        openclaw_answer("m", None),
        "I received: \"m\" — but my AI backend is not configured."
    );
    assert_eq!(bearer("k"), "Bearer k");
    assert_eq!(
        json::write(&chat_body("m", "s", "gpt")),
        "{\"max_tokens\":500,\"messages\":[{\"content\":\"s\",\"role\":\"system\"},{\"content\":\"m\",\"role\":\"user\"}],\"model\":\"gpt\"}"
    );
    let data = json::read("{\"choices\":[{\"message\":{\"content\":\" ok \"}}]}").unwrap();
    assert_eq!(chat_answer(&data), "ok");
    assert_eq!(chat_answer(&json::read("{}").unwrap()), "Error: Could not parse AI response");
    assert_eq!(
        json::write(&image_body("p", "gpt-4o")),
        "{\"model\":\"dall-e-3\",\"n\":1,\"prompt\":\"p\",\"size\":\"1024x1024\"}"
    );
    assert!(json::write(&image_body("p", "gpt-image-1")).contains("gpt-image-1"));
    let made = json::read("{\"data\":[{\"url\":\"u\"}]}").unwrap();
    assert_eq!(image_url("200 OK", &made), Ok("u".to_string()));
    let failed = json::read("{\"error\":{\"message\":\"no\"}}").unwrap();
    assert_eq!(
        image_url("400 Bad Request", &failed),
        Err("OpenAI Images API error (400 Bad Request): no".to_string())
    );
}

#[test]
fn comments_are_checked() {
    let config = BotConfig::default();
    assert!(reply_as_thread(&config.features, true));
    assert!(!reply_as_thread(&config.features, false));
    let why = |c: CommentCheck| check_comment(&c);
    assert_eq!(why(CommentCheck::Identity(false)).unwrap(), "no local identity key");
    assert!(why(CommentCheck::Identity(true)).is_none());
    assert_eq!(why(CommentCheck::Owner(Ok(None))).unwrap(), "no community owns this channel");
    assert_eq!(why(CommentCheck::Owner(Err("x"))).unwrap(), "community_id_for_channel: x");
    assert_eq!(why(CommentCheck::Community(Ok(false))).unwrap(), "v2 community not found");
    assert_eq!(why(CommentCheck::Dissolved(true)).unwrap(), "community has been dissolved");
    let banned = vec!["aa".to_string()];
    assert_eq!(
        why(CommentCheck::Banned(&banned, "aa")).unwrap(),
        "you are banned from this community"
    );
    assert!(why(CommentCheck::Banned(&banned, "bb")).is_none());
    assert_eq!(why(CommentCheck::Channel(None)).unwrap(), "no such channel in this community");
    assert_eq!(
        why(CommentCheck::Channel(Some((true, false)))).unwrap(),
        "private channel has no key yet (awaiting rekey)"
    );
    assert!(why(CommentCheck::Channel(Some((true, true)))).is_none());
    assert_eq!(
        why(CommentCheck::Author(Some("junk"))).unwrap(),
        "could not resolve parent message author"
    );
    let hex = "3bf0c63fcb93463407af97a5e5ee64fa883d107ef9e558472c4eb9aaaefa459d";
    let npub = "npub180cvv07tjdrrgpa0j7j7tmnyl2yr6yr7l8j4s3evf6u64th6gkwsyjh6w6";
    assert_eq!(parent_author(Some(npub)).unwrap(), hex);
    assert!(why(CommentCheck::Author(Some(npub))).is_none());
    assert_eq!(why(CommentCheck::Built(None)).unwrap(), "rumor has no id");
    assert!(why(CommentCheck::Built(Some("ee"))).is_none());
    assert_eq!(why(CommentCheck::Sealed(Err("x"))).unwrap(), "seal_chat_rumor: x");
    assert_eq!(why(CommentCheck::Client(false)).unwrap(), "not logged in");
    assert_eq!(why(CommentCheck::Published(Err("x"))).unwrap(), "publish failed: x");
    assert_eq!(whole_seconds(1999), 1);
}

#[test]
fn comments_are_sent_after_every_check() {
    let npub = "npub180cvv07tjdrrgpa0j7j7tmnyl2yr6yr7l8j4s3evf6u64th6gkwsyjh6w6";
    let hex = "3bf0c63fcb93463407af97a5e5ee64fa883d107ef9e558472c4eb9aaaefa459d";
    let banned = vec!["aa".to_string()];
    // Each check as it is passed, and as it fails.
    let checks = || {
        vec![
            (CommentCheck::Identity(true), CommentCheck::Identity(false)),
            (CommentCheck::Owner(Ok(Some("cc"))), CommentCheck::Owner(Ok(None))),
            (CommentCheck::Community(Ok(true)), CommentCheck::Community(Ok(false))),
            (CommentCheck::Dissolved(false), CommentCheck::Dissolved(true)),
            (CommentCheck::Banned(&banned, "bb"), CommentCheck::Banned(&banned, "aa")),
            (CommentCheck::Channel(Some((false, false))), CommentCheck::Channel(None)),
            (CommentCheck::Author(Some(npub)), CommentCheck::Author(None)),
            (CommentCheck::Built(Some("ee")), CommentCheck::Built(None)),
            (CommentCheck::Sealed(Ok(())), CommentCheck::Sealed(Err("x"))),
            (CommentCheck::Client(true), CommentCheck::Client(false)),
            (CommentCheck::Published(Ok(())), CommentCheck::Published(Err("x"))),
        ]
    };
    let (mut stage, action) = comment_start();
    assert!(matches!(action, CommentAction::FindKey));
    for (i, (passed, failed)) in checks().into_iter().enumerate() {
        // No other check is taken in its place.
        for (j, (other, _)) in checks().into_iter().enumerate() {
            assert!(i == j || comment_next(&stage, other).is_none());
        }
        let why = check_comment(&failed).unwrap();
        let (end, ended) = comment_next(&stage, failed).unwrap();
        assert!(matches!(ended, CommentAction::Fail(told) if told == why));
        assert!(comment_next(&end, CommentCheck::Identity(true)).is_none());
        let (next, action) = comment_next(&stage, passed).unwrap();
        assert!(match i {
            0 => matches!(action, CommentAction::FindCommunity),
            1 => matches!(action, CommentAction::LoadCommunity(id) if id == "cc"),
            2 => matches!(action, CommentAction::AskDissolved(id) if id == "cc"),
            3 => matches!(action, CommentAction::AskBanned(id) if id == "cc"),
            4 => matches!(action, CommentAction::FindChannel),
            5 => matches!(action, CommentAction::FindAuthor),
            6 => matches!(action, CommentAction::Build(key) if key == hex),
            7 => matches!(action, CommentAction::Seal),
            8 => matches!(action, CommentAction::FindClient),
            9 => matches!(action, CommentAction::Send),
            _ => matches!(action, CommentAction::Sent(id) if id == "ee"),
        });
        stage = next;
    }
    assert!(matches!(stage, CommentStage::Done));
}

#[test]
fn threaded_replies_are_tried_twice() {
    assert_eq!(after_attempt(1, true), ThreadStep::Done);
    assert_eq!(after_attempt(1, false), ThreadStep::Retry);
    assert_eq!(after_attempt(2, true), ThreadStep::Done);
    assert_eq!(after_attempt(2, false), ThreadStep::PlainReply);
}
