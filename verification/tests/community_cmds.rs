use concord_bots::auth::AuthManager;
use concord_bots::community::{Database, UserRow};
use concord_bots::handlers::community_admin::{
    clip, created_reply, dissolved_reply, format_json_value, info_reply, invited_reply,
    joined_reply, left_reply, link_reply, v2_caps_command, v2_channels_command,
    v2_community_command, v2_invite_command, v2_join_command, v2_members_command,
    v2_roles_command, CommunityStep, InviteStep,
};
use concord_bots::handlers::community_cmds::{
    announce_result, end_giveaways, end_reply, finish_giveaway, format_ends_in,
    format_member_since, giveaway_command, giveaway_list_command, leaderboard_command,
    level_command, parse_duration, profile_command, rep_command, short_npub, Drawn,
};
use concord_bots::json;

const NOW: i64 = 1_700_000_000;

#[test]
fn test_parse_duration() {
    assert_eq!(parse_duration("10m"), Some(600));
    assert_eq!(parse_duration("1h"), Some(3600));
    assert_eq!(parse_duration("30m"), Some(1800));
    assert_eq!(parse_duration("2h"), Some(7200));
    assert_eq!(parse_duration("15"), Some(900)); // default minutes
    assert_eq!(parse_duration("abc"), None);
    assert_eq!(parse_duration(""), None);
}

#[test]
fn test_short_npub() {
    let npub = "npub1jrvdfzf9aglmkt3nzpm4y6x3tq056qwh5v6ge2x2g9wkx27j58gsj7nev5";
    let short = short_npub(npub);
    assert!(short.contains("..."));
    assert!(short.starts_with("npub1jrv"));
    assert!(short.ends_with("nev5"));

    let short_input = "short";
    assert_eq!(short_npub(short_input), "short");
}

#[test]
fn test_format_member_since() {
    assert_eq!(format_member_since(0), "Unknown");
    // Jan 1, 2026 = 1767225600
    let result = format_member_since(1767225600);
    assert!(result.contains("2026") || result.contains("Jan"));
    assert_eq!(result, "Jan 2026");
}

#[test]
fn test_format_ends_in() {
    let now = NOW;

    // Already passed
    assert_eq!(format_ends_in(now - 100, now), "ended");

    // 30 seconds from now
    assert!(format_ends_in(now + 30, now).ends_with('s'));

    // 5 minutes from now
    assert!(format_ends_in(now + 300, now).ends_with('m'));

    // 2 hours from now
    assert!(format_ends_in(now + 7200, now).contains('h'));
    assert_eq!(format_ends_in(now + 7290, now), "2h 1m");
}

#[test]
fn durations_beyond_the_largest_are_none() {
    assert_eq!(parse_duration("18446744073709551615h"), None);
    assert_eq!(parse_duration(" 5M "), Some(300));
    assert_eq!(parse_duration("m"), None);
}

#[test]
fn levels_are_told() {
    let mut db = Database::new();
    assert_eq!(level_command(&db, "", "").unwrap(), "⚠️ Could not determine your npub.");
    assert_eq!(
        level_command(&db, "npub1a", "").unwrap(),
        "📊 Your Level 0\n📈 0 / 155 XP\n🎯 Next level in 155 XP"
    );
    db.award_xp("npub1a", 200, "c", NOW).unwrap();
    assert_eq!(
        level_command(&db, "npub1b", "nostr:npub1a").unwrap(),
        "📊 npub1a's Level 1\n📈 45 / 220 XP\n🎯 Next level in 175 XP"
    );
    // A name that has no character boundary where it is cut.
    assert!(level_command(&db, "npub1a", "ééééééééééééxé").is_none());
}

#[test]
fn leaderboard_is_ranked() {
    let mut db = Database::new();
    assert_eq!(
        leaderboard_command(&db),
        "🏆 Leaderboard is empty. Start chatting to earn XP!"
    );
    for (who, xp) in [("npub1a", 10), ("npub1b", 400), ("npub1c", 30), ("npub1d", 20)] {
        db.award_xp(who, xp, "c", NOW).unwrap();
    }
    assert_eq!(
        leaderboard_command(&db),
        "🏆 **Leaderboard**\n🥇 nostr:npub1b — Level 2 (400 XP)\n🥈 nostr:npub1c — Level 0 (30 XP)\n🥉 nostr:npub1d — Level 0 (20 XP)\n4. nostr:npub1a — Level 0 (10 XP)"
    );
}

#[test]
fn profiles_are_told() {
    let mut db = Database::new();
    db.award_xp("npub1a", 160, "c", 1767225600).unwrap();
    db.add_sats_tipped("npub1a", 21, 1767225600).unwrap();
    db.add_sats_zapped("npub1a", 4, 1767225600).unwrap();
    assert_eq!(
        profile_command(&db, "npub1a", "").unwrap(),
        "👤 npub1a\n📊 Level 1 · 160 XP\n📈 #1 on leaderboard\n⚡ 25 sats tipped/zapped\n💬 0 messages\n🎯 Member since Jan 2026\n⭐ Reputation: 0"
    );
    assert_eq!(profile_command(&db, "", " ").unwrap(), "⚠️ Could not determine your npub.");
}

#[test]
fn giveaways_start_and_end() {
    let mut db = Database::new();
    let mut go = |db: &mut Database, args: &str| giveaway_command(db, "chan", args, 5_000_000_123, NOW);
    assert!(go(&mut db, "").0.unwrap().starts_with("Usage: !giveaway <duration> <prize>\n"));
    assert_eq!(
        go(&mut db, "10m").0.unwrap(),
        "⚠️ Please provide both duration and prize.\nExample: !giveaway 10m 50 sats"
    );
    assert_eq!(
        go(&mut db, "soon beer").0.unwrap(),
        "⚠️ Could not parse duration \"soon\". Use: 10m, 1h, 30m"
    );
    assert_eq!(
        go(&mut db, "25h beer").0.unwrap(),
        "⚠️ Duration must be between 1 minute and 24 hours."
    );
    let (reply, started) = go(&mut db, "10m 50 Sats");
    assert_eq!(
        reply.unwrap(),
        "🎉 **GIVEAWAY!**\n🎁 Prize: 50 Sats\n⏱️ Ends: in 10m\n\nReact with 🎉 to enter!"
    );
    let (id, secs) = started.unwrap();
    assert_eq!((id.as_str(), secs), ("gw-123", 600));
    assert_eq!(db.get_giveaway("gw-123").unwrap().prize_sats, 50);
    // The same millisecond gives the same key.
    assert_eq!(go(&mut db, "10m beer").0.unwrap(), "⚠️ Could not create giveaway.");
    db.add_entry("gw-123", "npub1w", NOW);
    assert_eq!(
        giveaway_list_command(&db, NOW).unwrap(),
        "📦 **Active Giveaways**\n  • 50 Sats — chan (1 entries, ends in 10m)"
    );
    assert_eq!(
        go(&mut db, "end").0.unwrap(),
        "🎉 Giveaway ended!\n🎁 Prize: 50 Sats\n🏆 Winner: npub1w"
    );
    assert_eq!(go(&mut db, "end").0.unwrap(), "ℹ️ No active giveaways in this channel.");
    assert_eq!(go(&mut db, "list").0.unwrap(), "📦 No active giveaways right now.");
}

#[test]
fn draws_without_entries_have_no_winner() {
    let mut db = Database::new();
    db.add_giveaway("g", "chan", "beer", 0, NOW, NOW + 60).unwrap();
    let d = finish_giveaway(&mut db, "g", "beer");
    assert!(d.winner.is_none());
    assert_eq!(
        announce_result(&d).unwrap(),
        "🎉 Giveaway ended — no entries received.\n🎁 Prize: beer"
    );
    assert!(db.get_active_giveaways().is_empty());
    db.add_giveaway("h", "chan", "beer", 0, NOW, NOW + 60).unwrap();
    db.add_giveaway("i", "other", "tea", 0, NOW, NOW + 60).unwrap();
    let draws = end_giveaways(&mut db, "chan");
    assert_eq!(end_reply(&draws).unwrap(), "🎉 Giveaway ended — no entries.\n🎁 Prize: beer");
    assert!(db.get_active_giveaways_in_channel("chan").is_empty());
    assert_eq!(db.get_active_giveaways().len(), 1);
    let odd = Drawn { prize: "x".to_string(), winner: Some("ééééééééééééxé".to_string()) };
    assert!(announce_result(&odd).is_none());
}

#[test]
fn reputation_is_given_once_a_day() {
    let mut db = Database::new();
    assert_eq!(
        rep_command(&mut db, "", "npub1b", "c", NOW),
        "⚠️ Could not determine your npub."
    );
    assert_eq!(rep_command(&mut db, "npub1a", "", "c", NOW), "⭐ Your reputation: 0");
    assert_eq!(
        rep_command(&mut db, "npub1a", "npub1a", "c", NOW),
        "⚠️ You can't give reputation to yourself!"
    );
    assert_eq!(
        rep_command(&mut db, "npub1a", "npub1b", "c", NOW),
        "⭐ You gave +1 rep to nostr:npub1b! (Total: 1)"
    );
    assert_eq!(db.get_user("npub1b").xp, 50);
    assert_eq!(
        rep_command(&mut db, "npub1a", "npub1b", "c", NOW + 10),
        "⏰ You've already given rep to this person recently. Try again in 24 hours."
    );
    db.award_xp("npub1b", 104, "c", NOW).unwrap();
    assert_eq!(
        rep_command(&mut db, "npub1c", "@npub1b", "c", NOW),
        "⭐ You gave +1 rep to nostr:npub1b! (Total: 2)\n🎉 nostr:npub1b reached Level 1!"
    );
}

#[test]
fn community_commands_are_decided() {
    let auth = AuthManager::new("npub1owner", &vec!["npub1f".to_string()], false, None);
    let step = |npub: &str, community: Option<&str>, args: &str| {
        v2_community_command(Some(&auth), npub, community, args)
    };
    assert!(matches!(step("npub1owner", None, "create  My Place "), CommunityStep::Create(n) if n == "My Place"));
    assert!(matches!(step("npub1f", None, "create x"), CommunityStep::Reply(r) if r == "⛔ Owner only."));
    assert!(matches!(step("npub1owner", None, "create"), CommunityStep::Reply(r) if r == "Usage: !community create <name>"));
    assert!(matches!(step("npub1f", Some("abc"), "info"), CommunityStep::Info(i) if i == "abc"));
    assert!(matches!(step("npub1f", None, "info"), CommunityStep::Reply(r) if r == "⚠️ This command can only be used in a community channel."));
    assert!(matches!(step("npub1owner", Some("abc"), "leave"), CommunityStep::Leave(i) if i == "abc"));
    assert!(matches!(step("npub1owner", Some("abc"), "dissolve now"), CommunityStep::Dissolve(i) if i == "abc"));
    assert!(matches!(step("npub1f", Some("abc"), "dissolve"), CommunityStep::Reply(r) if r == "⛔ Owner only."));
    assert!(matches!(step("npub1f", Some("abc"), "?"), CommunityStep::Reply(r) if r.starts_with("Usage: !community <")));
    let summary = json::read("{\"community_id\":\"xyz\"}").unwrap();
    assert_eq!(created_reply("My Place", Ok(&summary)), "✅ Created v2 community: My Place\n🆔 ID: xyz");
    assert_eq!(created_reply("My Place", Err("no")), "⚠️ Failed to create community: no");
    assert_eq!(left_reply("abc", None), "👋 Left community abc");
    assert_eq!(left_reply("abc", Some("no")), "⚠️ Failed to leave community: no");
    assert_eq!(dissolved_reply("abc", None), "💀 Community abc has been dissolved. This is irreversible!");
    assert_eq!(dissolved_reply("abc", Some("no")), "⚠️ Failed to dissolve community: no");
    assert_eq!(joined_reply(Ok(&summary)), "✅ Joined community: xyz");
    assert_eq!(joined_reply(Err("no")), "⚠️ Failed to join community: no");
}

#[test]
fn invites_are_decided() {
    let auth = AuthManager::new("npub1owner", &vec!["npub1f".to_string()], false, None);
    assert!(matches!(v2_invite_command(Some(&auth), "npub1x", Some("c"), ""), InviteStep::Reply(r) if r.starts_with("⛔ Not authorized")));
    assert!(matches!(v2_invite_command(Some(&auth), "npub1f", None, ""), InviteStep::Reply(_)));
    assert!(matches!(v2_invite_command(Some(&auth), "npub1f", Some("c"), " "), InviteStep::Link));
    assert!(matches!(v2_invite_command(Some(&auth), "npub1f", Some("c"), "nostr:npub1z"), InviteStep::Invite(n) if n == "npub1z"));
    assert!(matches!(v2_invite_command(Some(&auth), "npub1f", Some("c"), "bob"), InviteStep::Reply(r) if r == "⚠️ Invalid npub. Usage: !invite <npub1...>"));
    assert_eq!(link_reply(Ok("https://x")), "🔗 Invite link: https://x");
    assert_eq!(link_reply(Err("no")), "⚠️ Failed to create invite: no");
    assert_eq!(invited_reply("npub1z", None), "✅ Invited npub1z to this community.");
    assert_eq!(invited_reply("npub1z", Some("no")), "⚠️ Failed to invite npub1z: no");
    assert_eq!(v2_join_command(" link "), Ok("link".to_string()));
    assert_eq!(v2_join_command(""), Err("Usage: !join <invite_link>".to_string()));
}

#[test]
fn communities_are_described() {
    let list = vec![
        json::read("{\"community_id\":\"other\"}").unwrap(),
        json::read("{\"community_id\":\"abc\",\"name\":\"Home\",\"version\":\"2\",\"channels\":[{\"name\":\"general\",\"id\":\"1\"},{}]}").unwrap(),
    ];
    let caps = json::read("\"all\"").unwrap();
    let roles = json::read("{\"b\":1,\"a\":[true,null]}").unwrap();
    assert_eq!(
        info_reply("abc", 3, &list, Some(&caps), Some(&roles)).unwrap(),
        "📊 **Community Info**\n🆔 ID: abc\n👥 Members: 3\n🔄 Protocol: v2\n📝 Channels: 2\n   • #general\n⚡ Capabilities: \"all\"\n🎭 Roles: {\n  \"a\": [\n    true,\n    null\n  ],\n  \"b\": 1\n}"
    );
    assert_eq!(
        info_reply("zzz", 0, &list, None, None).unwrap(),
        "📊 **Community Info**\n🆔 ID: zzz\n👥 Members: 0"
    );
    assert_eq!(
        v2_channels_command(&list, Some("abc")),
        "📝 **Channels**\n🏘️ Home (abc)\n  • #general (1)\n  • #? (?)"
    );
    assert_eq!(
        v2_channels_command(&list, None),
        "📝 **Channels**\n🏘️ Unnamed (other)\n🏘️ Home (abc)\n  • #general (1)\n  • #? (?)"
    );
    assert_eq!(v2_channels_command(&list, Some("nope")), "📝 **Channels**\nNo channels found.");
    assert_eq!(v2_channels_command(&vec![], None), "📦 No communities found.");
    assert_eq!(v2_roles_command(Some(Ok(&caps))).unwrap(), "🎭 **Roles**\n\"all\"");
    assert_eq!(v2_roles_command(Some(Err("no"))).unwrap(), "⚠️ Failed to retrieve roles: no");
    assert_eq!(v2_caps_command(Some(Ok(&caps))).unwrap(), "⚡ **Capabilities**\n\"all\"");
    assert_eq!(
        v2_caps_command(None).unwrap(),
        "⚠️ This command can only be used in a community channel."
    );
}

#[test]
fn long_values_are_clipped() {
    assert_eq!(clip("abcdef", 6).unwrap(), "abcdef");
    assert_eq!(clip("abcdef", 5).unwrap(), "ab...");
    assert!(clip("aébcd", 5).is_none());
    let v = json::read("\"0123456789\"").unwrap();
    assert_eq!(format_json_value(&v, 8).unwrap(), "\"0123...");
}

#[test]
fn members_are_listed() {
    assert_eq!(
        v2_members_command(None).unwrap(),
        "⚠️ This command can only be used in a community channel."
    );
    assert_eq!(v2_members_command(Some(&vec![])).unwrap(), "📦 No members found.");
    let many: Vec<String> = (0..52).map(|i| format!("npub{}", i)).collect();
    let reply = v2_members_command(Some(&many)).unwrap();
    assert!(reply.starts_with("👥 **Members** (52)\n  • npub0\n"));
    assert!(reply.ends_with("  • npub49\n  ... and 2 more"));
}

#[test]
fn npubs_keep_eight_and_four() {
    assert_eq!(
        short_npub("npub1jrvdfzf9aglmkt3nzpm4y6x3tq056qwh5v6ge2x2g9wkx27j58gsj7nev5"),
        "npub1jrv...nev5"
    );
    assert_eq!(short_npub("npub1jrvdfzf9agl"), "npub1jrvdfzf9agl");
    assert_eq!(short_npub("npub1jrvdfzf9aglm"), "npub1jrv...aglm");
}

#[test]
fn odd_stored_levels_are_told() {
    let row = |xp: i64, level: i64| UserRow {
        xp,
        level,
        messages_sent: 0,
        sats_tipped: 0,
        sats_zapped: 0,
        first_seen: NOW,
        last_xp_at: NOW,
        rep: 0,
    };
    let mut saved = Database::new().snapshot();
    saved.users.push(("npub1a".to_string(), row(13_443_585_100, 2000)));
    saved.users.push(("npub1b".to_string(), row(5, -3)));
    saved.users.push(("npub1c".to_string(), row(5, i64::MAX)));
    let db = Database::restore(saved);
    assert_eq!(
        level_command(&db, "npub1a", "").unwrap(),
        "📊 Your Level 2000\n📈 100 / 20120155 XP\n🎯 Next level in 20120055 XP"
    );
    assert_eq!(
        level_command(&db, "npub1b", "").unwrap(),
        "📊 Your Level -3\n📈 5 / 20 XP\n🎯 Next level in 15 XP"
    );
    // What is asked of this level is no number of a machine.
    assert!(level_command(&db, "npub1c", "").is_none());
}
