//! What holds of the smaller rules: waits, limits, defaults and what is said in their place.

use vstd::prelude::*;
use crate::auth::AuthLevel;
use crate::community;
use crate::community::CommunityView;
use crate::config::{AutoModSection, FeaturesSection};
use crate::git_monitor::detect;
use crate::git_monitor::github;
use crate::git_monitor::store::RepoHost;
use crate::handlers::automod::command;
use crate::handlers::automod::command::CommandView;
use crate::handlers::automod::engine;
use crate::handlers::automod::engine::EngineView;
use crate::handlers::commands;
use crate::handlers::commands::Section;
use crate::handlers::community_admin;
use crate::handlers::community_cmds;
use crate::handlers::community_cmds::RequestView;
use crate::handlers::fun;
use crate::handlers::git_cmds;
use crate::handlers::moderation_cmds;
use crate::handlers::utility;
use crate::handlers::wallet_cmds;
use crate::handlers::wallet_cmds::{ZapActionView, ZapStageView, ZapView};
use crate::json::{Json, JsonView};
use crate::{clock, handlers, json, nak, nip98, number, rate_limiter, text, wallet};

verus! {

proof fn lemma_within(head: Seq<char>, p: Seq<char>, tail: Seq<char>, whole: Seq<char>)
    requires
        whole =~= head + p + tail,
    ensures
        text::has_substring(whole, p),
{
    text::lemma_substring_between(head, p, tail);
}

// ---------------------------------------------------------------------------
// Waits
// ---------------------------------------------------------------------------

/// The help is shown again after three minutes, a user is welcomed again after an hour, a good word
/// can be given again after a day, and the state is saved once a minute.
pub proof fn law_waits()
    ensures
        commands::HELP_COOLDOWN_NANOS == 3 * 60 * 1_000_000_000,
        handlers::WELCOME_COOLDOWN_NANOS == 60 * 60 * 1_000_000_000,
        community::REP_COOLDOWN_SECS == 24 * 60 * 60,
        engine::PERSIST_INTERVAL_SECS == 60,
        rate_limiter::REPEAT_OFFENDER_COOLDOWN_SECS == 5 * 60,
        rate_limiter::REPEAT_OFFENDER_THRESHOLD == 3,
        community_cmds::REP_XP == 50,
        nip98::AUTH_KIND == 27235,
{
}

/// Commands that ask the web wait ten seconds, other commands three, and what is no command none.
pub proof fn law_commands_wait(command: Seq<char>)
    ensures
        rate_limiter::cooldown_secs("!price"@) == Some(10u64),
        rate_limiter::cooldown_secs("!weather"@) == Some(10u64),
        command.len() > 0 && command[0] == '!' && command != "!price"@ && command != "!weather"@
            ==> rate_limiter::cooldown_secs(command) == Some(3u64),
        command.len() == 0 || command[0] != '!' ==> rate_limiter::cooldown_secs(command) is None,
{
    reveal_strlit("!price");
    reveal_strlit("!weather");
}

/// From the third time on a user is locked out for five minutes, and before that for the time that is
/// set.
pub proof fn law_repeat_offenders_wait_longer(limits: rate_limiter::LimitsView, times: u32)
    ensures
        times >= 3 ==> rate_limiter::lockout_secs(limits, times) == 300,
        times < 3 ==> rate_limiter::lockout_secs(limits, times) == limits.cooldown_secs,
{
}

/// Time that has passed is what lies between then and now, and none where then is still to come.
pub proof fn law_time_passes(then: u64, passed: u64)
    requires
        then + passed <= u64::MAX,
    ensures
        clock::age((then + passed) as u64, then) == passed,
        clock::age(then, (then + passed) as u64) == 0,
{
}

// ---------------------------------------------------------------------------
// Refusals
// ---------------------------------------------------------------------------

/// Who is refused is told what it would take.
pub proof fn law_denial_is_told()
    ensures
        commands::denial(AuthLevel::Owner) == "⛔ Owner only."@,
        commands::denial(AuthLevel::Authorized)
            == "⛔ Not authorized. Ask the owner to run !add <your-npub>"@,
{
}

/// A request for a giveaway ends the running ones, lists them, or starts one; without a prize or a
/// time that can be read it is refused.
pub proof fn law_giveaway_words_are_read(word: Seq<char>, rest: Seq<char>)
    requires
        word.len() > 0,
        text::unspaced(word),
        word != "end"@,
        word != "list"@,
        rest.len() > 0,
        text::trimmed(rest) == rest,
    ensures
        community_cmds::request_of("end"@) is End,
        community_cmds::request_of("list"@) is List,
        community_cmds::request_of(Seq::empty()) is Usage,
        community_cmds::request_of(word) is Incomplete,
        community_cmds::duration_secs(word) is None ==> community_cmds::request_of(
            word.push(' ') + rest,
        ) == RequestView::BadDuration(word),
        community_cmds::request_of(word.push(' ') + rest) matches RequestView::Start {
            secs,
            prize,
            prize_sats,
        } ==> prize == rest && prize_sats == community_cmds::prize_value(rest) && Some(secs as nat)
            == community_cmds::duration_secs(word),
{
    reveal_strlit("end");
    reveal_strlit("list");
    let none = Seq::<char>::empty();
    let all = word.push(' ') + rest;
    assert(none + "end"@ + none =~= "end"@);
    assert(none + "list"@ + none =~= "list"@);
    text::lemma_trim_around(none, "end"@, none);
    text::lemma_trim_around(none, "list"@, none);
    assert("end"@.len() != "list"@.len());
    assert(text::trimmed(none) =~= none);
    assert(none + word + none =~= word);
    assert(word[word.len() - 1] == word.last());
    text::lemma_trim_around(none, word, none);
    text::law_first_word_is_cut(word, ' ', rest);
    text::law_trimmed_has_bare_ends(rest);
    assert(none + all + none =~= all);
    assert(all[0] == word[0] && all.last() == rest.last());
    text::lemma_trim_around(none, all, none);
    assert(all[word.len() as int] == ' ');
    assert("end"@[0] == 'e' && "end"@[1] == 'n' && "end"@[2] == 'd');
    if all == "end"@ {
        assert(all[word.len() as int] == "end"@[word.len() as int]);
    }
    if all == "list"@ {
        assert(all[word.len() as int] == "list"@[word.len() as int]);
    }
}

/// A prize that is not in sats is worth none of them.
pub proof fn law_other_prizes_are_worth_nothing(prize: Seq<char>)
    requires
        prize.len() > 0,
        text::str_lowercase(prize).len() > 0,
        text::str_lowercase(prize).last() != 's',
        text::str_lowercase(prize).last() != 't',
    ensures
        community_cmds::prize_value(prize) == 0,
{
    reveal_strlit(" sats");
    reveal_strlit(" sat");
    let low = text::str_lowercase(prize);
    if " sats"@.is_suffix_of(low) {
        assert(low.subrange(low.len() - 5, low.len() as int)[4] == 's');
        assert(low.last() == 's');
    }
    if " sat"@.is_suffix_of(low) {
        assert(low.subrange(low.len() - 4, low.len() as int)[3] == 't');
        assert(low.last() == 't');
    }
}

/// Without a monitor the usage is still told where nothing to add or remove is named.
pub proof fn law_usage_is_told_without_a_monitor()
    ensures
        git_cmds::answer_when_off("add"@) == git_cmds::add_usage(),
        git_cmds::answer_when_off("remove"@) == git_cmds::remove_usage(),
        git_cmds::answer_when_off(Seq::empty()) == git_cmds::git_usage(),
{
    reveal_strlit("add");
    reveal_strlit("remove");
    reveal_strlit("rm");
    reveal_strlit("delete");
    reveal_strlit("list");
    reveal_strlit("poll");
    reveal_strlit("");
    let none = Seq::<char>::empty();
    assert(""@ =~= none);
    assert(none + "add"@ + none =~= "add"@);
    assert(none + "remove"@ + none =~= "remove"@);
    text::lemma_trim_around(none, "add"@, none);
    text::lemma_trim_around(none, "remove"@, none);
    assert(text::trimmed(none) =~= none);
    text::law_first_word_is_cut("add"@, ' ', none);
    text::law_first_word_is_cut("remove"@, ' ', none);
    text::law_first_word_is_cut(none, ' ', none);
    assert("add"@[0] == 'a' && "remove"@[0] == 'r' && "delete"@[0] == 'd' && "list"@[0] == 'l'
        && "poll"@[0] == 'p');
}

/// A poll tells how many subscriptions it looks at, and that there is none where there is none.
pub proof fn law_poll_tells_how_many(count: nat)
    ensures
        count > 0 ==> text::has_substring(
            git_cmds::poll_text(count),
            number::decimal(count) + " subscriptions…"@,
        ),
        git_cmds::poll_text(0) == "📦 No subscriptions in this channel to poll."@,
{
    if count > 0 {
        lemma_within(
            "🔄 Force-polling "@,
            number::decimal(count) + " subscriptions…"@,
            Seq::empty(),
            git_cmds::poll_text(count),
        );
    }
}

// ---------------------------------------------------------------------------
// Auto-moderation
// ---------------------------------------------------------------------------

/// The owner is told that a word was banned where it was not, and that it was freed where it was
/// banned.
pub proof fn law_owner_is_told_of_words(
    e: EngineView,
    cfg: AutoModSection,
    word: Seq<char>,
    now: u64,
)
    requires
        word.len() > 0,
        text::trimmed(word) == word,
        text::str_lowercase(word) == word,
    ensures
        !e.words.contains(word) ==> command::reply_to(e, cfg, CommandView::AddWord(word), true, now)
            == "✅ Added banned word: "@ + text::str_quoted(word),
        e.words.contains(word) ==> command::reply_to(e, cfg, CommandView::AddWord(word), true, now)
            == "ℹ️ That word is already banned (or empty)."@,
        e.words.contains(word) ==> command::reply_to(e, cfg, CommandView::RemoveWord(word), true, now)
            == "✅ Removed banned word: "@ + text::str_quoted(word),
        !e.words.contains(word) ==> command::reply_to(
            e,
            cfg,
            CommandView::RemoveWord(word),
            true,
            now,
        ) == "ℹ️ That word wasn't in the banned list."@,
{
    lemma_without_word(e.words, word);
}

proof fn lemma_without_word(v: Seq<Seq<char>>, w: Seq<char>)
    ensures
        engine::without_word(v, w).len() <= v.len(),
        engine::without_word(v, w).len() == v.len() <==> !v.contains(w),
    decreases v.len(),
{
    if v.len() > 0 {
        let init = v.drop_last();
        lemma_without_word(init, w);
        assert(v[v.len() - 1] == v.last());
        if init.contains(w) {
            let i = choose|i: int| 0 <= i < init.len() && init[i] == w;
            assert(v[i] == w);
        }
        if v.contains(w) && v.last() != w {
            let i = choose|i: int| 0 <= i < v.len() && v[i] == w;
            assert(init[i] == w);
        }
    }
}

/// A domain that the owner allows is allowed from then on, in lower case; one that is allowed already
/// is not added again.
pub proof fn law_domain_is_allowed(e: EngineView, domain: Seq<char>, now: u64)
    requires
        domain.len() > 0,
        text::trimmed(domain) == domain,
        text::str_lowercase(domain) == domain,
    ensures
        ({
            let f = command::after_command(e, CommandView::AddDomain(domain), true, now);
            &&& !engine::lowered(e.allowlist).contains(domain) ==> f.allowlist == e.allowlist.push(
                domain,
            )
            &&& engine::lowered(e.allowlist).contains(domain) ==> f.allowlist == e.allowlist
            &&& f.words == e.words && f.users == e.users
        }),
{
}

/// What switching on says of the log-only window is said while it is open and not otherwise.
pub proof fn law_dry_run_is_told(e: EngineView, cfg: AutoModSection, now: u64)
    ensures
        e.enabled && e.dry(cfg, now) ==> text::has_substring(
            command::status_head(e, cfg, now),
            " (DRY-RUN)"@,
        ),
        command::switch_reply(e, cfg, false, now) == "🛡️ Auto-mod turned "@ + "OFF ❌"@ + ""@,
        !e.dry(cfg, now) ==> command::switch_reply(e, cfg, true, now) == "🛡️ Auto-mod turned "@
            + "ON ✅"@ + ""@,
        e.dry(cfg, now) ==> text::has_substring(
            command::switch_reply(e, cfg, true, now),
            number::decimal(cfg.dry_run_minutes as nat) + " min after turning on"@,
        ),
{
    if e.enabled && e.dry(cfg, now) {
        let rest = "\n• strict_mode: "@ + text::bool_text(cfg.strict_mode) + "\n• burst: "@
            + number::decimal(cfg.max_messages as nat) + " msgs / "@ + number::decimal(
            cfg.burst_window_secs as nat,
        ) + "s\n• duplicates: "@ + number::decimal(cfg.max_duplicates as nat) + " / "@
            + number::decimal(cfg.dedupe_window_secs as nat) + "s\n"@;
        lemma_within(
            "🛡️ Auto-mod status: "@ + "ENABLED ✅"@,
            " (DRY-RUN)"@,
            rest,
            command::status_head(e, cfg, now),
        );
    }
    if e.dry(cfg, now) {
        let t = " min after turning on — no kicks/bans yet."@;
        reveal_strlit(" min after turning on — no kicks/bans yet.");
        reveal_strlit(" min after turning on");
        let p = " min after turning on"@;
        let d = number::decimal(cfg.dry_run_minutes as nat);
        assert(t =~= p + t.skip(p.len() as int));
        let head = "🛡️ Auto-mod turned "@ + "ON ✅"@ + "\n⚠️ Running in DRY-RUN (log-only) for "@;
        assert(command::switch_reply(e, cfg, true, now) =~= head + (d + p) + t.skip(p.len() as int));
        lemma_within(head, d + p, t.skip(p.len() as int), command::switch_reply(e, cfg, true, now));
    }
}

/// In a history a long npub is shown by its first ten characters and its last four.
pub proof fn law_history_shortens_names(npub: Seq<char>)
    requires
        text::ascii_only(npub),
    ensures
        engine::shortens(npub),
        npub.len() > 16 ==> engine::shortened(npub) == npub.take(10) + "…"@ + npub.skip(
            npub.len() - 4,
        ),
        npub.len() <= 16 ==> engine::shortened(npub) == npub,
{
    text::lemma_ascii_bytes(npub, npub.len() as int);
    if npub.len() > 16 {
        text::lemma_ascii_bytes(npub, 10);
        text::lemma_ascii_bytes(npub, npub.len() - 4);
    }
}

// ---------------------------------------------------------------------------
// What is shown
// ---------------------------------------------------------------------------

/// The time is that of the zone that is asked for, or universal time where none is.
pub proof fn law_time_is_of_the_zone(zone: Seq<char>, now: i64)
    ensures
        clock::utc_text(now, "%Y-%m-%d %H:%M:%S"@) matches Some(t) ==> utility::time_text(
            Seq::empty(),
            now,
        ) == Some("🕐 "@ + t + " UTC"@),
        zone.len() > 0 ==> (clock::zone_text(now, zone, "%Y-%m-%d %H:%M:%S"@) matches Some(t)
            ==> utility::time_text(zone, now) == Some("🕐 "@ + t + " ("@ + zone + ")"@)),
        zone.len() > 0 ==> utility::time_text(zone, now) is Some,
{
}

/// One die is told without a sum.
pub proof fn law_one_die_is_told(n: u64, sides: u32)
    ensures
        utility::roll_text(seq![n], sides) == "🎲 "@ + number::decimal(n as nat) + " (d"@
            + number::decimal(sides as nat) + ")"@,
{
    let one = seq![n];
    assert(one.drop_last() =~= Seq::empty());
    assert(utility::total(one.drop_last()) == 0);
}

/// A part of a place that is missing or empty is told as nothing.
pub proof fn law_missing_coordinate_is_zero(place: JsonView, key: Seq<char>)
    ensures
        place.text_at(key) is None ==> utility::coordinate(place, key) == "0"@,
        place.text_at(key) == Some(Seq::<char>::empty()) ==> utility::coordinate(place, key) == "0"@,
        place.text_at(key) matches Some(s) ==> (s.len() > 0 ==> utility::coordinate(place, key) == s),
{
}

/// What is put around a string stands there where there is one, and nowhere else.
pub proof fn law_nothing_stands_around_nothing(head: Seq<char>, s: Seq<char>, tail: Seq<char>)
    ensures
        s.len() > 0 ==> utility::around(head, s, tail) == head + s + tail,
        utility::around(head, Seq::empty(), tail) == ""@,
{
}

/// A hand is shown by its own sign.
pub proof fn law_hands_have_signs()
    ensures
        fun::hand_sign("rock"@) == "🪨"@,
        fun::hand_sign("paper"@) == "📄"@,
        fun::hand_sign("scissors"@) == "✂️"@,
{
    reveal_strlit("rock");
    reveal_strlit("paper");
    reveal_strlit("scissors");
    assert("rock"@.len() != "paper"@.len());
    assert("rock"@.len() != "scissors"@.len());
    assert("paper"@.len() != "scissors"@.len());
}

/// Since when one is a member is told by the month, and not at all where it is not known.
pub proof fn law_membership_is_told(ts: i64)
    ensures
        community_cmds::member_since(0) == "Unknown"@,
        ts != 0 ==> (clock::utc_text(ts, "%b %Y"@) matches Some(t) ==> community_cmds::member_since(ts)
            == t),
{
}

/// Of the points of a level those that one has and those that it takes are told.
pub proof fn law_progress_is_told(display: Seq<char>, level: int, xp: int)
    requires
        level >= 0,
    ensures
        text::has_substring(
            community_cmds::level_text(display, level, xp),
            number::signed_decimal(xp - community::total_xp(level)) + " / "@ + number::signed_decimal(
                community::total_xp(level + 1) - community::total_xp(level),
            ) + " XP\n🎯 Next level in "@,
        ),
{
    let total = community::total_xp(level);
    let step = community::step_xp(level + 1);
    assert(community::total_xp(level + 1) == total + step);
    assert(community::total_xp(level + 1) - total == step);
    let whole = community_cmds::level_text(display, level, xp);
    let head = "📊 "@ + display + " Level "@ + number::signed_decimal(level) + "\n📈 "@;
    let p = number::signed_decimal(xp - total) + " / "@ + number::signed_decimal(step)
        + " XP\n🎯 Next level in "@;
    let tail = number::signed_decimal(step - (xp - total)) + " XP"@;
    assert(whole =~= head + p + tail);
    lemma_within(head, p, tail, whole);
}

/// A user without a record has none shown.
pub proof fn law_empty_record_is_told(npub: Seq<char>)
    ensures
        moderation_cmds::warnings_text(npub, Seq::empty()) == "📋 No warnings on record for "@ + npub
            + "."@,
{
}

/// Objects and lists are shown over several lines, and other values on one.
pub proof fn law_values_are_shown(j: JsonView)
    ensures
        j is Object || j is Array ==> community_admin::json_shown(j) == json::json_pretty(j),
        !(j is Object) && !(j is Array) ==> community_admin::json_shown(j) == json::json_compact(j),
{
}

/// A part of a community's description is cut at two hundred characters.
pub proof fn law_parts_are_cut(title: Seq<char>, j: JsonView)
    requires
        text::ascii_only(community_admin::json_shown(j)),
    ensures
        ({
            let s = community_admin::json_shown(j);
            community_admin::json_part(title, Some(j)) == Some(
                title + if s.len() <= 200 {
                    s
                } else {
                    s.take(197) + "..."@
                },
            )
        }),
        community_admin::json_part(title, None) == Some(""@),
{
    let s = community_admin::json_shown(j);
    text::lemma_ascii_bytes(s, s.len() as int);
    if s.len() > 200 {
        text::lemma_ascii_bytes(s, 197);
    }
}

// ---------------------------------------------------------------------------
// Payments
// ---------------------------------------------------------------------------

/// An invoice is asked for where the service says how and the amount lies within its limits: from a
/// sat to a million where it sets none.
pub proof fn law_limits_of_a_service(offer: JsonView, sats: u64)
    requires
        sats * 1000 <= u64::MAX,
    ensures
        wallet::invoice_request(offer, sats) is Ok <==> offer.text_at("callback"@) is Some
            && wallet::least(offer) <= sats * 1000 <= wallet::most(offer),
        offer.at("minSendable"@) is Null ==> wallet::least(offer) == 1_000,
        offer.at("maxSendable"@) is Null ==> wallet::most(offer) == 1_000_000_000,
        offer.at("minSendable"@).unsigned() matches Some(n) ==> wallet::least(offer) == n,
        offer.at("maxSendable"@).unsigned() matches Some(n) ==> wallet::most(offer) == n,
{
}

/// The invoice that the service returned is paid, and none where it returned none.
pub proof fn law_returned_invoice_is_paid(data: JsonView, pr: Seq<char>)
    ensures
        data.text_at("pr"@) == Some(pr) && pr.len() > 0 ==> wallet_cmds::invoice_told(data) == (
            ZapStageView::Pay,
            ZapActionView::Pay(pr),
        ),
        data.text_at("pr"@) is None ==> wallet_cmds::invoice_told(data).1 is Reply,
        data.text_at("pr"@) == Some(Seq::<char>::empty()) ==> wallet_cmds::invoice_told(data).1 is Reply,
{
}

/// A zap is tagged with its amount in thousandths of a sat, with whom it is for and, where the
/// service has one, its address.
pub proof fn law_zap_is_tagged(z: ZapView, hex: Seq<char>, lnurl: Seq<char>)
    ensures
        ({
            let tags = wallet_cmds::zap_tags(z, hex, lnurl);
            &&& tags[1] == seq!["amount"@, number::decimal(wallet_cmds::millisats(z))]
            &&& tags[2] == seq!["p"@, hex]
            &&& lnurl.len() > 0 ==> tags.len() == 4 && tags[3] == seq!["lnurl"@, lnurl]
            &&& lnurl.len() == 0 ==> tags.len() == 3
        }),
{
    let empty = Seq::<Seq<char>>::empty();
    assert(empty.push("amount"@).push(number::decimal(wallet_cmds::millisats(z)))
        =~= seq!["amount"@, number::decimal(wallet_cmds::millisats(z))]);
    assert(empty.push("p"@).push(hex) =~= seq!["p"@, hex]);
    assert(empty.push("lnurl"@).push(lnurl) =~= seq!["lnurl"@, lnurl]);
}

/// A wallet that holds too little is told with what it holds and what it takes.
pub proof fn law_shortfall_is_told(balance: u64, amount: u64)
    ensures
        text::has_substring(
            wallet::short_of(balance, amount),
            "have "@ + number::decimal(balance as nat) + " sats, need "@ + number::decimal(
                amount as nat,
            ) + " sats"@,
        ),
{
    reveal_strlit("Insufficient funds: have ");
    reveal_strlit("have ");
    let t = "Insufficient funds: have "@;
    let p = "have "@ + number::decimal(balance as nat) + " sats, need "@ + number::decimal(
        amount as nat,
    ) + " sats"@;
    assert(t =~= t.take(20) + "have "@);
    lemma_within(t.take(20), p, Seq::empty(), wallet::short_of(balance, amount));
}

// ---------------------------------------------------------------------------
// Edges
// ---------------------------------------------------------------------------

/// A user who sent nothing of late and is not locked out is forgotten; one who is locked out or just
/// sent something is kept.
pub proof fn law_who_is_kept_in_mind(
    limits: rate_limiter::LimitsView,
    u: rate_limiter::UsageView,
    now: u64,
)
    ensures
        u.recent.len() == 0 && u.locked_until is None ==> !rate_limiter::worth_keeping(limits, u, now),
        u.locked_until matches Some(t) ==> (now < t ==> rate_limiter::worth_keeping(limits, u, now)),
        u.recent.len() > 0 && u.recent.last() == now && limits.burst_window_secs > 0
            ==> rate_limiter::worth_keeping(limits, u, now),
{
    if u.recent.len() > 0 && u.recent.last() == now && limits.burst_window_secs > 0 {
        let window = limits.burst_window_secs * rate_limiter::NANOS;
        assert(window > 0) by (nonlinear_arith)
            requires
                window == limits.burst_window_secs * rate_limiter::NANOS,
                limits.burst_window_secs > 0,
                rate_limiter::NANOS == 1_000_000_000,
        ;
        assert(rate_limiter::fresh(u.recent, now, window).len() > 0);
    }
}

/// A user has a history where anything is held against them or was heard of them.
pub proof fn law_who_has_a_history(e: EngineView, npub: Seq<char>)
    ensures
        !e.users.dom().contains(npub) ==> !command::has_history(e, npub),
        e.users.dom().contains(npub) ==> (command::has_history(e, npub) <==> e.users[npub].violations.len()
            > 0 || e.users[npub].messages.len() > 0),
{
}

/// Where there is no room even for dots, dots are shown.
pub proof fn law_tiny_room_holds_dots(s: Seq<char>, max: usize)
    requires
        text::ascii_only(s),
        max < 3,
        s.len() > max,
    ensures
        community_admin::clipped(s, max) == Some("..."@),
{
    text::lemma_ascii_bytes(s, s.len() as int);
    text::lemma_ascii_bytes(s, 0);
    assert(s.take(0) + "..."@ =~= "..."@);
}

/// An empty Lightning address is none.
pub proof fn law_lightning_address_is_read(output: Seq<char>, e: JsonView)
    requires
        nak::printed_event(output) == Some(e),
    ensures
        nak::profile_in(e).text_at("lud16"@) matches Some(l) ==> (l.len() > 0
            ==> wallet_cmds::lightning_address(output) == Some(l)),
        nak::profile_in(e).text_at("lud16"@) == Some(Seq::<char>::empty())
            ==> wallet_cmds::lightning_address(output) is None,
        nak::profile_in(e).text_at("lud16"@) is None ==> wallet_cmds::lightning_address(output)
            is None,
{
}

/// A section without a command is left out of the help.
pub proof fn law_empty_sections_are_left_out(
    parts: Seq<Seq<char>>,
    header: Seq<char>,
    section: Section,
    features: FeaturesSection,
)
    ensures
        commands::section_lines(commands::registry(), section, features).len() == 0
            ==> commands::with_section(parts, header, section, features) == parts,
        commands::section_lines(commands::registry(), section, features).len() > 0
            ==> commands::with_section(parts, header, section, features).len() == parts.len() + 1,
{
}

/// Nobody is listed where nobody is authorized, and this is said.
pub proof fn law_empty_lists_are_told(owner: Seq<char>)
    ensures
        commands::list_lines(owner, Seq::empty(), Seq::empty()) == seq![
            "Owner: "@ + owner,
            "Authorized users: (none)"@,
        ],
{
    assert(commands::list_lines(owner, Seq::empty(), Seq::empty()) =~= seq![
        "Owner: "@ + owner,
        "Authorized users: (none)"@,
    ]);
}

/// A repository on a host of one's own is found behind the host.
pub proof fn law_own_host_is_read(name: Seq<char>, owner: Seq<char>, repo: Seq<char>)
    requires
        name.len() > 0,
        text::unspaced(name),
        !name.contains('/'),
        detect::plain_part(owner),
        detect::plain_part(repo),
    ensures
        detect::self_hosted("gitlab."@ + name + "/"@ + owner + "/"@ + repo) == Ok::<
            _,
            Seq<char>,
        >(
            (detect::RepoView {
                host: RepoHost::GitLab,
                owner,
                repo,
            }),
        ),
{
    reveal_strlit("gitlab.");
    reveal_strlit("/");
    let host = "gitlab."@ + name;
    let path = owner + "/"@ + repo;
    let all = "gitlab."@ + name + "/"@ + owner + "/"@ + repo;
    assert("/"@ =~= seq!['/']);
    assert(all =~= host.push('/') + path);
    let s = host.push('/') + path;
    assert forall|j: int| 0 <= j < host.len() implies s[j] != '/' by {
        assert(s[j] == host[j]);
        if j < 7 {
            assert(host[j] == "gitlab."@[j]);
        } else {
            assert(host[j] == name[j - 7]);
            assert(name.contains(name[j - 7]));
        }
    }
    text::lemma_first_of(s, '/', host.len() as int);
    assert(s.skip(host.len() as int + 1) =~= path);
    if owner.contains('/') {
        let k = choose|k: int| 0 <= k < owner.len() && owner[k] == '/';
        assert(owner[k] != '/');
    }
    if repo.contains('/') {
        let k = choose|k: int| 0 <= k < repo.len() && repo[k] == '/';
        assert(repo[k] != '/');
    }
    text::lemma_one_piece(owner, '/');
    text::lemma_last_piece(owner, repo, '/');
    assert(path =~= owner.push('/') + repo);
}

/// Where somebody is added or removed is told by whether it is everywhere.
pub proof fn law_scope_is_told(npub: Seq<char>)
    requires
        npub.len() > 0,
        text::unspaced(npub),
    ensures
        commands::add_scope(npub) == "in this community"@,
        commands::add_scope(npub.push(' ') + "global"@) == "globally"@,
        commands::remove_scope(npub) == "this community"@,
        commands::remove_scope(npub.push(' ') + "global"@) == "global"@,
{
    reveal_strlit("global");
    reveal_strlit("");
    let none = Seq::<char>::empty();
    text::law_words_are_counted(none, ' ', npub);
    text::law_words_are_counted(npub, ' ', "global"@);
    assert("global"@.len() != ""@.len());
}

/// One who is not known has no points, no level and no reputation.
pub proof fn law_unknown_users_have_nothing(db: CommunityView, npub: Seq<char>)
    requires
        !db.users.dom().contains(npub),
    ensures
        community_cmds::known(db, npub).xp == 0,
        community_cmds::known(db, npub).level == 0,
        community_cmds::known(db, npub).rep == 0,
        community_cmds::known(db, npub).messages_sent == 0,
        community_cmds::known(db, npub).first_seen == 0,
        community_cmds::rank_text(db, npub) == "#"@ + number::decimal(1),
{
}

/// Nothing is held against one who is not known, by auto-moderation or by the rate limiter.
pub proof fn law_strangers_start_clean()
    ensures
        handlers::automod::no_record().messages.len() == 0,
        handlers::automod::no_record().violations.len() == 0,
        handlers::automod::no_record().msgs_since_join == 0,
        rate_limiter::no_usage().recent.len() == 0,
        rate_limiter::no_usage().locked_until is None,
        rate_limiter::no_usage().violations == 0,
        rate_limiter::no_usage().last_used.dom().len() == 0,
{
}

/// Roles and capabilities are cut at five hundred characters, and a failure is told.
pub proof fn law_long_values_are_cut(title: Seq<char>, failure: Seq<char>, v: &Json, e: &str)
    requires
        text::ascii_only(community_admin::json_shown(v@)),
    ensures
        ({
            let s = community_admin::json_shown(v@);
            community_admin::value_text(title, failure, Ok(v)) == Some(
                title + if s.len() <= 500 {
                    s
                } else {
                    s.take(497) + "..."@
                },
            )
        }),
        community_admin::value_text(title, failure, Err(e)) == Some(failure + e@),
{
    let s = community_admin::json_shown(v@);
    text::lemma_ascii_bytes(s, s.len() as int);
    if s.len() > 500 {
        text::lemma_ascii_bytes(s, 497);
    }
}

/// How many requests are left is known where it is fewer than the whole hour's share.
pub proof fn law_remaining_requests_are_known(remaining: i64)
    ensures
        remaining < 5000 ==> github::remaining_known(remaining) == Some(remaining),
        remaining >= 5000 ==> github::remaining_known(remaining) is None,
{
}

/// Blank commands are answered with how they are used.
pub proof fn law_blank_commands_are_explained(
    what: moderation_cmds::MemberAction,
    in_community: bool,
    bot: Seq<char>,
    blank: Seq<char>,
)
    requires
        text::trimmed(blank).len() == 0,
    ensures
        moderation_cmds::request_refusal(what, blank, in_community, bot) == Some(
            moderation_cmds::usage(what),
        ),
        moderation_cmds::warn_refusal(blank) == Some(
            "Usage: !warn <npub> <reason>\nExample: !warn npub1abc... Please be respectful"@,
        ),
        fun::choice_refusal(blank) == Some(
            "Usage: !choose <option1 | option2 | option3>\nExample: !choose pizza | tacos | sushi"@,
        ),
        utility::shorten_refusal(text::trimmed(blank)) is Some,
{
    reveal_strlit("nostr:");
    let t = text::trimmed(blank);
    assert(t =~= Seq::empty());
}

/// That nobody is authorized is said only where nobody is.
pub proof fn law_lists_have_no_other_lines(owner: Seq<char>, names: Seq<Seq<char>>)
    requires
        names.len() > 0,
    ensures
        commands::list_lines(owner, names, Seq::empty()).len() == 2 + names.len(),
        commands::list_lines(owner, Seq::empty(), names).len() == 2 + names.len(),
{
}

/// A key is found behind other words.
pub proof fn law_key_is_found_behind_words(word: Seq<char>, key: Seq<char>)
    requires
        word.len() > 0,
        text::unspaced(word),
        nak::is_key(key),
        !nak::is_key(nak::to_hex(nak::from_hex(word))),
    ensures
        nak::printed_key(word.push(' ') + key) == Some(text::str_lowercase(key)),
{
    let none = Seq::<char>::empty();
    let all = word.push(' ') + key;
    assert forall|i: int| 0 <= i < key.len() implies !text::char_is_whitespace(#[trigger] key[i]) by {
        assert(nak::is_hex(key[i]));
    }
    assert(text::unspaced(key));
    if all.contains('\n') {
        let k = choose|k: int| 0 <= k < all.len() && all[k] == '\n';
        if k < word.len() {
            assert(word[k] == '\n');
            assert(!text::char_is_whitespace(word[k]));
        } else if k > word.len() {
            assert(key[k - word.len() - 1] == '\n');
            assert(!text::char_is_whitespace(key[k - word.len() - 1]));
        }
    }
    assert(all.last() == key[key.len() - 1]);
    assert(!text::char_is_whitespace(all.last()));
    text::law_lines_are_cut(none, all);
    assert(none + all + none =~= all);
    assert(all[0] == word[0]);
    text::lemma_trim_around(none, all, none);
    assert(all.len() > 64);
    let lines = text::text_lines(all);
    assert(lines.len() == 1 && lines[0] == all);
    assert(nak::key_line(lines, 1) is None);
    assert(nak::key_line(lines, 0) is None);
    text::law_words_are_counted(none, ' ', word);
    text::law_words_are_counted(word, ' ', key);
    let words = text::words(all);
    assert(words =~= seq![word, key]);
    assert(words[0] == word && words[1] == key);
    assert(nak::is_hex(key[0]) && nak::is_hex(key[key.len() - 1]));
    assert(key[key.len() - 1] == key.last());
    assert(nak::from_hex(key) == key);
    assert(nak::to_hex(key) == key);
    assert(nak::key_word(words, 1) == Some(key));
    assert(nak::key_word(words, 0) == Some(key));
}

} // verus!
