//! What holds of the longer replies as a whole.

use vstd::prelude::*;
use crate::config::AutoModSection;
use crate::git_monitor::detect::RepoView;
use crate::handlers::automod::command;
use crate::handlers::automod::command::CommandView;
use crate::handlers::automod::enforce;
use crate::handlers::automod::engine;
use crate::handlers::automod::engine::EngineView;
use crate::handlers::automod::{AutoModAction, AutoModVerdict};
use crate::handlers::community_admin;
use crate::handlers::git_cmds;
use crate::handlers::moderation_cmds;
use crate::handlers::moderation_cmds::{MemberAction, WarningView};
use crate::handlers::nostr_cmds;
use crate::handlers::nostr_cmds::Ran;
use crate::handlers::utility;
use crate::handlers::utility::Measured;
use crate::json::JsonView;
use crate::{json, nak, number, text};

verus! {

proof fn lemma_within(head: Seq<char>, p: Seq<char>, tail: Seq<char>, whole: Seq<char>)
    requires
        whole =~= head + p + tail,
    ensures
        text::has_substring(whole, p),
{
    text::lemma_substring_between(head, p, tail);
}

// ---------------------------------------------------------------------------
// Auto-moderation
// ---------------------------------------------------------------------------

/// Whoever is not the owner is refused what changes auto-moderation, and shown the rest.
pub proof fn law_others_are_refused(
    e: EngineView,
    cfg: AutoModSection,
    cmd: CommandView,
    now: u64,
)
    ensures
        cmd is Switch || cmd is AddWord || cmd is RemoveWord || cmd is AddDomain || cmd is RemoveDomain
            || cmd is Reset ==> command::reply_to(e, cfg, cmd, false, now) == "⛔ Owner only."@,
        cmd is Status || cmd is ListWords || cmd is ListDomains || cmd is Usage ==> command::reply_to(
            e,
            cfg,
            cmd,
            false,
            now,
        ) == command::reply_to(e, cfg, cmd, true, now),
{
}

/// The thresholds and the limit on links are told as they are set.
#[verifier::rlimit(30)]
pub proof fn law_status_tells_the_thresholds(cfg: AutoModSection)
    ensures
        text::has_substring(
            command::status_limits(cfg),
            "s\n• thresholds warn/kick/ban: "@ + number::decimal(cfg.warn_threshold as nat) + "/"@
                + number::decimal(cfg.kick_threshold as nat) + "/"@ + number::decimal(
                cfg.ban_threshold as nat,
            ),
        ),
        text::has_substring(
            command::status_limits(cfg),
            "• max_links: "@ + number::decimal(cfg.max_links as nat) + " (action: "@ + cfg.link_action@,
        ),
{
    let (w, k, b) = (
        number::decimal(cfg.warn_threshold as nat),
        number::decimal(cfg.kick_threshold as nat),
        number::decimal(cfg.ban_threshold as nat),
    );
    let none = Seq::<char>::empty();
    let (t, slash) = ("s\n• thresholds warn/kick/ban: "@, "/"@);
    let p = t + w + slash + k + slash + b;
    let l = "• max_links: "@ + number::decimal(cfg.max_links as nat) + " (action: "@
        + cfg.link_action@;
    let l1 = l + "), max_mentions: "@;
    let l2 = l1 + number::decimal(cfg.max_mentions as nat);
    let l3 = l2 + "\n• new-user grace: "@;
    let l4 = l3 + number::decimal(cfg.new_user_max_msgs as nat);
    let l5 = l4 + " msgs / "@;
    let l6 = l5 + number::decimal(cfg.new_user_grace_secs as nat);
    let m = l6 + t + w + slash + k + slash + b;
    let m1 = m + "\n• escalation: kick after "@;
    let m2 = m1 + number::decimal(cfg.escalation_kick_after as nat);
    let m3 = m2 + ", ban after "@;
    let m4 = m3 + number::decimal(cfg.escalation_ban_after as nat);
    let m5 = m4 + " (window "@;
    let m6 = m5 + number::decimal(cfg.escalation_window_secs as nat);
    let m7 = m6 + "s)\n"@;
    assert(command::status_limits(cfg) == m7);
    lemma_thresholds(l6, t, w, slash, k, b);
    lemma_within(l6, p, none, m);
    lemma_longer(m, "\n• escalation: kick after "@, p);
    lemma_longer(m1, number::decimal(cfg.escalation_kick_after as nat), p);
    lemma_longer(m2, ", ban after "@, p);
    lemma_longer(m3, number::decimal(cfg.escalation_ban_after as nat), p);
    lemma_longer(m4, " (window "@, p);
    lemma_longer(m5, number::decimal(cfg.escalation_window_secs as nat), p);
    lemma_longer(m6, "s)\n"@, p);
    lemma_within(none, l, none, l);
    lemma_longer(l, "), max_mentions: "@, l);
    lemma_longer(l1, number::decimal(cfg.max_mentions as nat), l);
    lemma_longer(l2, "\n• new-user grace: "@, l);
    lemma_longer(l3, number::decimal(cfg.new_user_max_msgs as nat), l);
    lemma_longer(l4, " msgs / "@, l);
    lemma_longer(l5, number::decimal(cfg.new_user_grace_secs as nat), l);
    lemma_longer(l6, t, l);
    lemma_longer(l6 + t, w, l);
    lemma_longer(l6 + t + w, slash, l);
    lemma_longer(l6 + t + w + slash, k, l);
    lemma_longer(l6 + t + w + slash + k, slash, l);
    lemma_longer(l6 + t + w + slash + k + slash, b, l);
    lemma_longer(m, "\n• escalation: kick after "@, l);
    lemma_longer(m1, number::decimal(cfg.escalation_kick_after as nat), l);
    lemma_longer(m2, ", ban after "@, l);
    lemma_longer(m3, number::decimal(cfg.escalation_ban_after as nat), l);
    lemma_longer(m4, " (window "@, l);
    lemma_longer(m5, number::decimal(cfg.escalation_window_secs as nat), l);
    lemma_longer(m6, "s)\n"@, l);
}

proof fn lemma_thresholds(
    base: Seq<char>,
    t: Seq<char>,
    w: Seq<char>,
    slash: Seq<char>,
    k: Seq<char>,
    b: Seq<char>,
)
    ensures
        base + t + w + slash + k + slash + b =~= base + (t + w + slash + k + slash + b)
            + Seq::<char>::empty(),
{
}

proof fn lemma_longer(s: Seq<char>, more: Seq<char>, p: Seq<char>)
    requires
        text::has_substring(s, p),
    ensures
        text::has_substring(s + more, p),
{
    let none = Seq::<char>::empty();
    assert(none + s + more =~= s + more);
    text::lemma_substring_between(none, s, more);
    text::lemma_substring_of_part(s + more, s, p);
}

/// Whether auto-moderation is on and how many messages it lets through are told as they are.
pub proof fn law_status_tells_whether_it_is_on(e: EngineView, cfg: AutoModSection, now: u64)
    ensures
        text::has_substring(
            command::status_head(e, cfg, now),
            "\n• burst: "@ + number::decimal(cfg.max_messages as nat) + " msgs / "@ + number::decimal(
                cfg.burst_window_secs as nat,
            ) + "s\n• duplicates: "@ + number::decimal(cfg.max_duplicates as nat) + " / "@
                + number::decimal(cfg.dedupe_window_secs as nat) + "s\n"@,
        ),
        e.enabled ==> text::has_substring(command::status_head(e, cfg, now), "ENABLED ✅"@),
        !e.enabled ==> text::has_substring(command::status_head(e, cfg, now), "disabled ❌"@),
{
    let head = command::status_head(e, cfg, now);
    let on = if e.enabled {
        "ENABLED ✅"@
    } else {
        "disabled ❌"@
    };
    let dry = if e.enabled && e.dry(cfg, now) {
        " (DRY-RUN)"@
    } else {
        ""@
    };
    let q = "\n• burst: "@ + number::decimal(cfg.max_messages as nat) + " msgs / "@ + number::decimal(
        cfg.burst_window_secs as nat,
    ) + "s\n• duplicates: "@ + number::decimal(cfg.max_duplicates as nat) + " / "@ + number::decimal(
        cfg.dedupe_window_secs as nat,
    ) + "s\n"@;
    let strict = "\n• strict_mode: "@ + text::bool_text(cfg.strict_mode);
    assert(head =~= "🛡️ Auto-mod status: "@ + on + dry + strict + q);
    lemma_within("🛡️ Auto-mod status: "@ + on + dry + strict, q, Seq::empty(), head);
    lemma_within("🛡️ Auto-mod status: "@, on, dry + strict + q, head);
}

/// Each entry of a list stands behind a bullet, on a line of its own.
pub proof fn law_entries_are_bulleted(list: Seq<Seq<char>>, i: int)
    requires
        0 <= i < list.len(),
    ensures
        text::has_substring(text::bulleted(list), "  • "@ + list[i] + "\n"@),
    decreases list.len(),
{
    let init = list.drop_last();
    let last = "  • "@ + list.last() + "\n"@;
    let none = Seq::<char>::empty();
    let whole = text::bulleted(list);
    if i == init.len() {
        lemma_within(text::bulleted(init), last, none, whole);
    } else {
        law_entries_are_bulleted(init, i);
        lemma_within(none, text::bulleted(init), last, whole);
        text::lemma_substring_of_part(whole, text::bulleted(init), "  • "@ + list[i] + "\n"@);
    }
}

/// Every banned word and every allowed domain is listed.
pub proof fn law_filters_are_listed(e: EngineView, i: int)
    ensures
        0 <= i < e.words.len() && e.words[i].len() > 0 && text::unspaced(e.words[i])
            ==> text::has_substring(command::words_listing(e), e.words[i]),
        0 <= i < e.allowlist.len() && e.allowlist[i].len() > 0 && text::unspaced(e.allowlist[i])
            ==> text::has_substring(command::domains_listing(e), e.allowlist[i]),
        0 <= i < e.patterns.len() && e.patterns[i].len() > 0 && text::unspaced(e.patterns[i])
            ==> text::has_substring(command::words_listing(e), e.patterns[i]),
{
    let w = command::section("Words ("@, e.words);
    let p = command::section("Regex patterns ("@, e.patterns);
    let all = "📝 Banned filters:\n"@ + w + p;
    if 0 <= i < e.words.len() && e.words[i].len() > 0 && text::unspaced(e.words[i]) {
        lemma_section_holds("Words ("@, e.words, i);
        lemma_within("📝 Banned filters:\n"@, w, p, all);
        text::lemma_substring_of_part(all, w, e.words[i]);
        assert(e.words[i][e.words[i].len() - 1] == e.words[i].last());
        text::law_trimming_keeps_what_is_bare(all, e.words[i]);
    }
    if 0 <= i < e.patterns.len() && e.patterns[i].len() > 0 && text::unspaced(e.patterns[i]) {
        lemma_section_holds("Regex patterns ("@, e.patterns, i);
        lemma_within("📝 Banned filters:\n"@ + w, p, Seq::empty(), all);
        text::lemma_substring_of_part(all, p, e.patterns[i]);
        assert(e.patterns[i][e.patterns[i].len() - 1] == e.patterns[i].last());
        text::law_trimming_keeps_what_is_bare(all, e.patterns[i]);
    }
    if 0 <= i < e.allowlist.len() && e.allowlist[i].len() > 0 && text::unspaced(e.allowlist[i]) {
        let title = "🔗 Allowlisted domains ("@;
        lemma_section_holds(title, e.allowlist, i);
        assert(e.allowlist[i][e.allowlist[i].len() - 1] == e.allowlist[i].last());
        text::law_trimming_keeps_what_is_bare(command::section(title, e.allowlist), e.allowlist[i]);
    }
}

proof fn lemma_section_holds(title: Seq<char>, list: Seq<Seq<char>>, i: int)
    requires
        0 <= i < list.len(),
    ensures
        text::has_substring(command::section(title, list), list[i]),
{
    let line = "  • "@ + list[i] + "\n"@;
    let all = text::bulleted(list);
    law_entries_are_bulleted(list, i);
    text::lemma_substring_between("  • "@, list[i], "\n"@);
    text::lemma_substring_of_part(all, line, list[i]);
    let whole = command::section(title, list);
    let head = title + number::decimal(list.len()) + "):\n"@;
    lemma_within(head, all, Seq::empty(), whole);
    text::lemma_substring_of_part(whole, all, list[i]);
}

/// A history that is shown lists every action, behind a bullet, under the user it is of.
pub proof fn law_history_is_listed(npub: Option<Seq<char>>, shown: Seq<Seq<char>>, i: int)
    requires
        0 <= i < shown.len(),
    ensures
        text::has_substring(command::history_reply(npub, shown), "  • "@ + shown[i]),
        npub matches Some(n) ==> text::has_substring(command::history_reply(npub, shown), n),
{
    let lines = text::prefixed(shown, "  • "@);
    let body = text::joined(lines, "\n"@);
    let whole = command::history_reply(npub, shown);
    let none = Seq::<char>::empty();
    text::lemma_joined_holds(lines, "\n"@, i);
    assert(lines[i] == "  • "@ + shown[i]);
    let head = (match npub {
        Some(n) => "📋 Recent auto-mod actions for "@ + n + ":"@,
        None => "📋 Recent auto-mod actions:"@,
    }) + "\n"@;
    assert(whole =~= head + body + none);
    lemma_within(head, body, none, whole);
    text::lemma_substring_of_part(whole, body, lines[i]);
    if npub is Some {
        let n = npub->0;
        let tail = ":"@ + "\n"@ + body;
        assert(whole =~= "📋 Recent auto-mod actions for "@ + n + tail);
        lemma_within("📋 Recent auto-mod actions for "@, n, tail, whole);
    }
}

proof fn lemma_audit_keys()
    ensures
        "timestamp"@.len() == 9,
        "npub"@.len() == 4,
        "action"@.len() == 6,
        "score"@.len() == 5 && "score"@[0] == 's',
        "rules"@.len() == 5 && "rules"@[0] == 'r',
        "channel"@.len() == 7 && "channel"@[0] == 'c',
        "message_snippet"@.len() == 15,
        "dry_run"@.len() == 7 && "dry_run"@[0] == 'd',
{
    reveal_strlit("timestamp");
    reveal_strlit("npub");
    reveal_strlit("action");
    reveal_strlit("score");
    reveal_strlit("rules");
    reveal_strlit("channel");
    reveal_strlit("message_snippet");
    reveal_strlit("dry_run");
}

/// The log says who was dealt with, how, for what and where.
pub proof fn law_log_says_what_was_done(
    timestamp: Seq<char>,
    npub: Seq<char>,
    v: AutoModVerdict,
    channel: Seq<char>,
    snippet: Seq<char>,
)
    ensures
        ({
            let e = enforce::audit_entry(timestamp, npub, v, channel, snippet);
            &&& e.text_at("npub"@) == Some(npub)
            &&& e.text_at("timestamp"@) == Some(timestamp)
            &&& e.text_at("channel"@) == Some(channel)
            &&& e.text_at("message_snippet"@) == Some(snippet)
            &&& e.at("dry_run"@).boolean() == Some(v.dry_run)
            &&& e.at("score"@).unsigned() == Some(v.score as nat)
            &&& v.action is Warn ==> e.text_at("action"@) == Some("warn"@)
            &&& v.action is Kick ==> e.text_at("action"@) == Some("kick"@)
            &&& v.action is Ban ==> e.text_at("action"@) == Some("ban"@)
        }),
{
    lemma_audit_keys();
    reveal_with_fuel(json::member_from, 10);
    number::law_decimal_round_trip(v.score as nat, u64::MAX as nat);
    number::lemma_decimal_digits(v.score as nat);
}

// ---------------------------------------------------------------------------
// Moderation
// ---------------------------------------------------------------------------

/// A record is shown with how many warnings it holds.
pub proof fn law_record_is_counted(npub: Seq<char>, v: Seq<WarningView>)
    requires
        v.len() > 0,
    ensures
        text::has_substring(
            moderation_cmds::warnings_text(npub, v),
            "Warnings for "@ + npub + " ("@ + number::decimal(v.len()) + "):"@,
        ),
{
    reveal_strlit("📋 Warnings for ");
    reveal_strlit("Warnings for ");
    reveal_strlit("):\n");
    reveal_strlit("):");
    let t = "📋 Warnings for "@;
    let n = number::decimal(v.len());
    let lines = moderation_cmds::warning_lines(v, v.len() as int);
    let all = t + npub + " ("@ + n + "):\n"@ + lines;
    let p = "Warnings for "@ + npub + " ("@ + n + "):"@;
    assert(t =~= t.take(2) + "Warnings for "@);
    assert("):\n"@ =~= "):"@ + seq!['\n']);
    assert(all =~= t.take(2) + p + (seq!['\n'] + lines));
    lemma_within(t.take(2), p, seq!['\n'] + lines, all);
    assert(p[0] == 'W' && p.last() == ':');
    text::law_trimming_keeps_what_is_bare(all, p);
}

/// A failure is told with what was said about it, but for a lifted ban, where the member is named.
pub proof fn law_failures_are_told(what: MemberAction, npub: Seq<char>, shown: Seq<char>)
    ensures
        !(what is Unban) ==> text::has_substring(
            moderation_cmds::failed_text(what, npub, shown),
            shown,
        ),
        what is Unban || what is GrantMod || what is RevokeMod ==> text::has_substring(
            moderation_cmds::failed_text(what, npub, shown),
            npub,
        ),
{
    let none = Seq::<char>::empty();
    let whole = moderation_cmds::failed_text(what, npub, shown);
    match what {
        MemberAction::Kick => {
            lemma_within("⚠️ Kick failed: "@, shown, none, whole);
        },
        MemberAction::Ban => {
            lemma_within("⚠️ Ban failed: "@, shown, none, whole);
        },
        MemberAction::Unban => {
            lemma_within(
                "⚠️ Could not unban "@,
                npub,
                ". They may not be banned or I lack permission."@,
                whole,
            );
        },
        MemberAction::GrantMod => {
            lemma_within("⚠️ Could not grant admin to "@, npub, ": "@ + shown, whole);
            lemma_within("⚠️ Could not grant admin to "@ + npub + ": "@, shown, none, whole);
        },
        MemberAction::RevokeMod => {
            lemma_within("⚠️ Could not revoke admin from "@, npub, ": "@ + shown, whole);
            lemma_within("⚠️ Could not revoke admin from "@ + npub + ": "@, shown, none, whole);
        },
    }
}

// ---------------------------------------------------------------------------
// Communities
// ---------------------------------------------------------------------------

/// A community is told of with its id and how many members it has.
pub proof fn law_community_is_told(
    id: Seq<char>,
    members: usize,
    list: Seq<JsonView>,
    caps: Seq<char>,
    roles: Seq<char>,
)
    ensures
        text::has_substring(
            community_admin::info_text(id, members, list, caps, roles),
            "\n👥 Members: "@ + number::decimal(members as nat),
        ),
        text::has_substring(community_admin::info_text(id, members, list, caps, roles), id),
        text::has_substring(community_admin::info_text(id, members, list, caps, roles), caps),
        text::has_substring(community_admin::info_text(id, members, list, caps, roles), roles),
{
    let whole = community_admin::info_text(id, members, list, caps, roles);
    let head = "📊 **Community Info**\n🆔 ID: "@;
    let p = "\n👥 Members: "@ + number::decimal(members as nat);
    let sum = match community_admin::summary_from(list, id, 0) {
        Some(s) => community_admin::summary_text(s),
        None => ""@,
    };
    assert(whole =~= head + id + p + sum + caps + roles);
    lemma_within(head, id, p + sum + caps + roles, whole);
    lemma_within(head + id, p, sum + caps + roles, whole);
    lemma_within(head + id + p + sum, caps, roles, whole);
    lemma_within(head + id + p + sum + caps, roles, Seq::empty(), whole);
}

/// The channels of a community are counted, and the first five of them are named.
pub proof fn law_channels_are_counted(
    summary: JsonView,
    channels: Seq<JsonView>,
    i: int,
    name: Seq<char>,
)
    requires
        summary.at("channels"@).items() == Some(channels),
        0 <= i < channels.len(),
        i < 5,
        channels[i].text_at("name"@) == Some(name),
    ensures
        text::has_substring(
            community_admin::summary_text(summary),
            "\n📝 Channels: "@ + number::decimal(channels.len()),
        ),
        text::has_substring(community_admin::summary_text(summary), "\n   • #"@ + name),
{
    let whole = community_admin::summary_text(summary);
    let v = match summary.text_at("version"@) {
        Some(v) => "\n🔄 Protocol: v"@ + v,
        None => ""@,
    };
    let n: int = if channels.len() < 5 {
        channels.len() as int
    } else {
        5
    };
    let p = "\n📝 Channels: "@ + number::decimal(channels.len());
    let names = community_admin::channel_names(channels, n);
    assert(whole =~= v + p + names);
    lemma_within(v, p, names, whole);
    lemma_channel_named(channels, n, i, name);
    lemma_within(v + p, names, Seq::empty(), whole);
    text::lemma_substring_of_part(whole, names, "\n   • #"@ + name);
}

proof fn lemma_channel_named(channels: Seq<JsonView>, n: int, i: int, name: Seq<char>)
    requires
        0 <= i < n <= channels.len(),
        channels[i].text_at("name"@) == Some(name),
    ensures
        text::has_substring(community_admin::channel_names(channels, n), "\n   • #"@ + name),
    decreases n,
{
    let p = "\n   • #"@ + name;
    let rest = community_admin::channel_names(channels, n - 1);
    let whole = community_admin::channel_names(channels, n);
    let last = match channels[n - 1].text_at("name"@) {
        Some(s) => "\n   • #"@ + s,
        None => Seq::empty(),
    };
    if i == n - 1 {
        lemma_within(rest, p, Seq::empty(), whole);
    } else {
        lemma_channel_named(channels, n - 1, i, name);
        lemma_within(Seq::empty(), rest, last, whole);
        text::lemma_substring_of_part(whole, rest, p);
    }
}

/// A new subscription is told with the host, the slug and the address.
pub proof fn law_new_subscription_is_told(p: RepoView)
    ensures
        text::has_substring(
            git_cmds::added_text(p),
            git_cmds::host_label(p.host) + " "@ + p.slug() + " ("@ + p.url() + ")"@,
        ),
{
    let tail = ")\nNew commits and releases will be announced here automatically.\nUse !git remove "@;
    reveal_strlit(
        ")\nNew commits and releases will be announced here automatically.\nUse !git remove ",
    );
    reveal_strlit(")");
    let q = git_cmds::host_label(p.host) + " "@ + p.slug() + " ("@ + p.url() + ")"@;
    let end = tail.skip(1) + p.slug() + " to unsubscribe."@;
    assert(tail =~= ")"@ + tail.skip(1));
    assert(git_cmds::added_text(p) =~= "✅ Subscribed to "@ + q + end);
    lemma_within("✅ Subscribed to "@, q, end, git_cmds::added_text(p));
}

// ---------------------------------------------------------------------------
// Lookups
// ---------------------------------------------------------------------------

/// A profile that was printed is read, and everything else that can come of a lookup is told.
pub proof fn law_lookup_reads_what_was_printed(input: Seq<char>, output: &str)
    ensures
        nak::printed_event(output@) matches Some(e) ==> nostr_cmds::looked_up(
            input,
            Ran::Output(output),
        ) == Ok::<_, Seq<char>>(nak::profile_in(e)),
        nak::printed_event(output@) is None ==> nostr_cmds::looked_up(input, Ran::Output(output))
            is Err,
        nostr_cmds::looked_up(input, Ran::Failed) is Err,
        nostr_cmds::looked_up(input, Ran::TimedOut) is Err,
        nostr_cmds::looked_up(input, Ran::Failed) == Err::<JsonView, _>(
            "⚠️ Could not reach Nostr relays. Try again later."@,
        ),
        nostr_cmds::looked_up(input, Ran::TimedOut) == Err::<JsonView, _>(
            "⚠️ Relay lookup timed out. Try again later."@,
        ),
{
}

/// The profile in an event is what its content reads as.
pub proof fn law_profile_is_the_content(event: JsonView, content: Seq<char>)
    requires
        event.text_at("content"@) == Some(content),
    ensures
        json::json_parsed(content) matches Some(j) ==> nak::profile_in(event) == j,
        json::json_parsed(content) is None ==> nak::profile_in(event) is Null,
{
}

/// A place is where the first answer puts it.
pub proof fn law_first_place_counts(list: Seq<JsonView>, lat: Seq<char>, lon: Seq<char>)
    requires
        list.len() > 0,
        list[0].text_at("lat"@) == Some(lat),
        list[0].text_at("lon"@) == Some(lon),
        lat.len() > 0,
        lon.len() > 0,
    ensures
        utility::first_place(JsonView::Array(list)) == Some(list[0]),
        utility::coordinate(list[0], "lat"@) == lat,
        utility::coordinate(list[0], "lon"@) == lon,
        utility::first_place(JsonView::Array(Seq::empty())) is None,
{
}

/// The weather is told with the place, the temperature, the humidity and the wind that were measured.
#[verifier::rlimit(30)]
pub proof fn law_weather_is_told(place: Seq<char>, zip: Seq<char>, m: Measured, s: Seq<char>)
    requires
        s.len() > 0,
        text::unspaced(s),
        m.temperature is Some && s == m.temperature->0@ + "°F"@ || m.humidity is Some && s
            == m.humidity->0@ + "%"@ || m.wind is Some && s == m.wind->0@ || s == zip,
    ensures
        text::has_substring(utility::weather_text(place, zip, m), s),
{
    let feels = match m.feels {
        Some(f) => " (feels like "@ + f@ + "°F)"@,
        None => ""@,
    };
    let t = match m.temperature {
        Some(t) => "Temperature: "@ + t@ + "°F"@ + feels + "\n"@,
        None => ""@,
    };
    let h = match m.humidity {
        Some(h) => "Humidity: "@ + h@ + "%\n"@,
        None => ""@,
    };
    let w = match m.wind {
        Some(w) => "Wind: "@ + w@ + " mph\n"@,
        None => ""@,
    };
    let head = "🌤️ **"@ + place + " (ZIP "@;
    let end = "Conditions: "@ + utility::conditions(m.code);
    let all = "🌤️ **"@ + place + " (ZIP "@ + zip + ")**\n"@ + t + h + w + "Conditions: "@
        + utility::conditions(m.code);
    assert(all =~= head + zip + ")**\n"@ + t + h + w + end);
    if m.temperature is Some && s == m.temperature->0@ + "°F"@ {
        assert(t =~= "Temperature: "@ + s + (feels + "\n"@));
        lemma_within("Temperature: "@, s, feels + "\n"@, t);
        lemma_within(head + zip + ")**\n"@, t, h + w + end, all);
        text::lemma_substring_of_part(all, t, s);
    } else if m.humidity is Some && s == m.humidity->0@ + "%"@ {
        reveal_strlit("%\n");
        reveal_strlit("%");
        assert("%\n"@ =~= "%"@ + seq!['\n']);
        assert(h =~= "Humidity: "@ + s + seq!['\n']);
        lemma_within("Humidity: "@, s, seq!['\n'], h);
        lemma_within(head + zip + ")**\n"@ + t, h, w + end, all);
        text::lemma_substring_of_part(all, h, s);
    } else if m.wind is Some && s == m.wind->0@ {
        lemma_within("Wind: "@, s, " mph\n"@, w);
        lemma_within(head + zip + ")**\n"@ + t + h, w, end, all);
        text::lemma_substring_of_part(all, w, s);
    } else {
        lemma_within(head, zip, ")**\n"@ + t + h + w + end, all);
    }
    assert(s[s.len() - 1] == s.last());
    text::law_trimming_keeps_what_is_bare(all, s);
}

/// The action on a message is the one that its score and the sender's record lead to.
pub proof fn law_quiet_message_needs_no_action(
    e: EngineView,
    cfg: AutoModSection,
    npub: Seq<char>,
    message: Seq<char>,
    now: u64,
    v: AutoModVerdict,
)
    requires
        engine::verdict_on(e, cfg, npub, message, now, v),
    ensures
        v.action == enforce::action_on(e, cfg, npub, message, now),
        v.action == AutoModAction::Nothing ==> enforce::action_on(e, cfg, npub, message, now) is Nothing,
{
}

} // verus!
