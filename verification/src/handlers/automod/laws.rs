//! What holds of auto-moderation as a whole.

use vstd::prelude::*;
use crate::config::AutoModSection;
use crate::handlers::automod;
use crate::handlers::automod::{AutoModAction, Findings, FiltersView, MsgView, UserView, ViolationView};
use crate::text;

verus! {

// ---------------------------------------------------------------------------
// Scores
// ---------------------------------------------------------------------------

/// A score that grew by so many points, up to the largest that fits.
pub open spec fn grown(score: u32, points: int) -> int {
    if score + points <= u32::MAX {
        score + points
    } else {
        u32::MAX as int
    }
}

/// Every further link that is not allowed adds two points to the score, four where the sender just
/// joined.
pub proof fn law_each_bad_link_counts(cfg: AutoModSection, f: Findings, n: u64)
    requires
        cfg.link_action@ != "off"@,
        cfg.link_action@ != "block"@,
        1 <= n < u64::MAX,
    ensures
        automod::score_of(cfg, Findings { bad_links: (n + 1) as u64, new_user: false, ..f })
            == grown(
            automod::score_of(cfg, Findings { bad_links: n, new_user: false, ..f }),
            2,
        ),
        automod::score_of(cfg, Findings { bad_links: (n + 1) as u64, new_user: true, ..f })
            == grown(
            automod::score_of(cfg, Findings { bad_links: n, new_user: true, ..f }),
            4,
        ),
{
}

/// The first link that is not allowed counts as each further one, among links that are not too
/// many.
pub proof fn law_first_bad_link_counts(cfg: AutoModSection, f: Findings)
    requires
        cfg.link_action@ != "off"@,
        cfg.link_action@ != "block"@,
        f.links <= cfg.max_links,
    ensures
        automod::score_of(cfg, Findings { bad_links: 1, new_user: false, ..f }) == grown(
            automod::score_of(cfg, Findings { bad_links: 0, new_user: false, ..f }),
            2,
        ),
        automod::score_of(cfg, Findings { bad_links: 1, new_user: true, ..f }) == grown(
            automod::score_of(cfg, Findings { bad_links: 0, new_user: true, ..f }),
            4,
        ),
{
}

/// Links alone score twice their number that is not allowed, four times from someone who just
/// joined.
pub proof fn law_bad_links_alone(cfg: AutoModSection, f: Findings)
    requires
        cfg.link_action@ != "off"@,
        cfg.link_action@ != "block"@,
        f.bad_links > 0,
        f.keyword_hits == 0,
        !f.burst && !f.duplicate && !f.flooding && !f.caps && !f.wall,
        f.mentions <= cfg.max_mentions,
        4 * f.bad_links <= u32::MAX,
    ensures
        !f.new_user ==> automod::score_of(cfg, f) == f.bad_links + f.bad_links,
        f.new_user ==> automod::score_of(cfg, f) == f.bad_links + f.bad_links + f.bad_links
            + f.bad_links,
{
}

/// Too many links of which each is allowed add two points, however many they are.
pub proof fn law_too_many_links_count_once(cfg: AutoModSection, f: Findings)
    requires
        cfg.link_action@ != "off"@,
        f.bad_links == 0,
        f.links > cfg.max_links,
    ensures
        automod::score_of(cfg, f) == grown(automod::score_of(cfg, Findings { links: 0, ..f }), 2),
{
}

/// Where links are not looked at, none counts.
pub proof fn law_links_off_count_nothing(
    cfg: AutoModSection,
    f: Findings,
    links: u64,
    bad_links: u64,
)
    requires
        cfg.link_action@ == "off"@,
    ensures
        automod::score_of(cfg, f) == automod::score_of(cfg, Findings { links, bad_links, ..f }),
        automod::fired_rules(cfg, f) == automod::fired_rules(
            cfg,
            Findings { links, bad_links, ..f },
        ),
{
}

/// Blocking links raises the score of a message with one that is not allowed to what a warning
/// takes, and changes no score that is higher.
pub proof fn law_blocking_raises_to_a_warning(
    flags: AutoModSection,
    blocks: AutoModSection,
    f: Findings,
)
    requires
        flags.link_action@ != "off"@,
        flags.link_action@ != "block"@,
        blocks.link_action@ == "block"@,
        flags.warn_threshold == blocks.warn_threshold,
        flags.max_links == blocks.max_links,
        flags.max_mentions == blocks.max_mentions,
        f.mentions <= flags.max_mentions,
        !f.caps && !f.wall,
    ensures
        f.bad_links > 0 ==> automod::score_of(blocks, f) == if automod::score_of(flags, f)
            >= blocks.warn_threshold {
            automod::score_of(flags, f)
        } else {
            blocks.warn_threshold
        },
        f.bad_links == 0 ==> automod::score_of(blocks, f) == automod::score_of(flags, f),
{
    reveal_strlit("block");
    reveal_strlit("off");
    assert("block"@.len() != "off"@.len());
}

/// Every banned word or pattern adds five points.
pub proof fn law_each_keyword_counts(cfg: AutoModSection, f: Findings)
    requires
        cfg.link_action@ != "block"@ || f.bad_links == 0,
        f.keyword_hits < u64::MAX,
    ensures
        automod::score_of(cfg, Findings { keyword_hits: (f.keyword_hits + 1) as u64, ..f })
            == grown(automod::score_of(cfg, f), 5),
{
}

/// A burst adds three points.
pub proof fn law_burst_counts(cfg: AutoModSection, f: Findings)
    requires
        cfg.link_action@ != "block"@ || f.bad_links == 0,
    ensures
        automod::score_of(cfg, Findings { burst: true, ..f }) == grown(
            automod::score_of(cfg, Findings { burst: false, ..f }),
            3,
        ),
{
    let on = Findings { burst: true, ..f };
    let off = Findings { burst: false, ..f };
    assert(automod::all_points(cfg, on) == automod::all_points(cfg, off) + 3);
}

/// A duplicate adds four points.
pub proof fn law_duplicate_counts(cfg: AutoModSection, f: Findings)
    requires
        cfg.link_action@ != "block"@ || f.bad_links == 0,
    ensures
        automod::score_of(cfg, Findings { duplicate: true, ..f }) == grown(
            automod::score_of(cfg, Findings { duplicate: false, ..f }),
            4,
        ),
{
    let on = Findings { duplicate: true, ..f };
    let off = Findings { duplicate: false, ..f };
    assert(automod::all_points(cfg, on) == automod::all_points(cfg, off) + 4);
}

/// Flooding by someone new adds four points.
pub proof fn law_flooding_counts(cfg: AutoModSection, f: Findings)
    requires
        cfg.link_action@ != "block"@ || f.bad_links == 0,
    ensures
        automod::score_of(cfg, Findings { flooding: true, ..f }) == grown(
            automod::score_of(cfg, Findings { flooding: false, ..f }),
            4,
        ),
{
    let on = Findings { flooding: true, ..f };
    let off = Findings { flooding: false, ..f };
    assert(automod::all_points(cfg, on) == automod::all_points(cfg, off) + 4);
}

/// Capitals add one point, whatever becomes of links.
pub proof fn law_capitals_count(cfg: AutoModSection, f: Findings)
    ensures
        automod::score_of(cfg, Findings { caps: true, ..f }) == grown(
            automod::score_of(cfg, Findings { caps: false, ..f }),
            1,
        ),
{
    let on = Findings { caps: true, ..f };
    let off = Findings { caps: false, ..f };
    assert(automod::all_points(cfg, on) == automod::all_points(cfg, off) + 1);
}

/// A wall of text adds one point, whatever becomes of links.
pub proof fn law_wall_counts(cfg: AutoModSection, f: Findings)
    ensures
        automod::score_of(cfg, Findings { wall: true, ..f }) == grown(
            automod::score_of(cfg, Findings { wall: false, ..f }),
            1,
        ),
{
    let on = Findings { wall: true, ..f };
    let off = Findings { wall: false, ..f };
    assert(automod::all_points(cfg, on) == automod::all_points(cfg, off) + 1);
}

/// More mentions than allowed add three points, however many they are.
pub proof fn law_mentions_count(cfg: AutoModSection, f: Findings)
    ensures
        automod::score_of(cfg, f) == grown(
            automod::score_of(cfg, Findings { mentions: 0, ..f }),
            if f.mentions > cfg.max_mentions {
                3
            } else {
                0
            },
        ),
{
    let none = Findings { mentions: 0, ..f };
    assert(automod::link_points(cfg, f) == automod::link_points(cfg, none));
}

// ---------------------------------------------------------------------------
// Actions
// ---------------------------------------------------------------------------

/// A sender is banned for a score that reaches the threshold for bans, or where the violation is
/// the one after which senders are banned; kicked and warned likewise. Nothing is done about a
/// score below every threshold, whatever came before.
pub proof fn law_action_follows_thresholds(cfg: AutoModSection, score: u32, prior: nat)
    ensures
        ({
            let acts = score >= cfg.warn_threshold || score >= cfg.kick_threshold || score
                >= cfg.ban_threshold;
            let bans = score >= cfg.ban_threshold || (0 < cfg.escalation_ban_after <= prior + 1);
            let kicks = score >= cfg.kick_threshold || (0 < cfg.escalation_kick_after <= prior + 1);
            let done = automod::final_action(cfg, score, prior);
            &&& done == AutoModAction::Nothing <==> !acts
            &&& done == AutoModAction::Ban <==> acts && bans
            &&& done == AutoModAction::Kick <==> acts && !bans && kicks
            &&& done == AutoModAction::Warn <==> acts && !bans && !kicks
        }),
{
}

/// Earlier violations are named as a reason exactly where there is something to be done and they
/// have reached a number that calls for a kick or a ban.
pub proof fn law_escalation_is_named(cfg: AutoModSection, score: u32, prior: nat)
    ensures
        automod::escalates(cfg, score, prior) <==> (score >= cfg.warn_threshold || score
            >= cfg.kick_threshold || score >= cfg.ban_threshold) && (0 < cfg.escalation_ban_after
            <= prior + 1 || 0 < cfg.escalation_kick_after <= prior + 1),
{
}

/// Each rule is named exactly where it fired.
pub proof fn law_rules_are_named(cfg: AutoModSection, f: Findings)
    ensures
        automod::fired_rules(cfg, f).contains("rate_burst"@) <==> f.burst,
        automod::fired_rules(cfg, f).contains("duplicate_content"@) <==> f.duplicate,
        automod::fired_rules(cfg, f).contains("new_user_flooding"@) <==> f.flooding,
        automod::fired_rules(cfg, f).contains("banned_keyword"@) <==> f.keyword_hits > 0,
        automod::fired_rules(cfg, f).contains("link_filter"@) <==> cfg.link_action@ != "off"@ && (
        f.bad_links > 0 || f.links > cfg.max_links),
        automod::fired_rules(cfg, f).contains("mention_spam"@) <==> f.mentions > cfg.max_mentions,
        automod::fired_rules(cfg, f).contains("caps"@) <==> f.caps,
        automod::fired_rules(cfg, f).contains("wall_of_text"@) <==> f.wall,
{
    reveal_strlit("rate_burst");
    reveal_strlit("duplicate_content");
    reveal_strlit("new_user_flooding");
    reveal_strlit("banned_keyword");
    reveal_strlit("link_filter");
    reveal_strlit("mention_spam");
    reveal_strlit("caps");
    reveal_strlit("wall_of_text");
    assert("duplicate_content"@[0] == 'd' && "new_user_flooding"@[0] == 'n');
    assert("mention_spam"@[0] == 'm' && "wall_of_text"@[0] == 'w');
    assert("rate_burst"@[0] == 'r' && "banned_keyword"@[0] == 'b');
    assert("link_filter"@[0] == 'l' && "caps"@[0] == 'c');
    lemma_rule_named(cfg, f, "rate_burst"@);
    lemma_rule_named(cfg, f, "duplicate_content"@);
    lemma_rule_named(cfg, f, "new_user_flooding"@);
    lemma_rule_named(cfg, f, "banned_keyword"@);
    lemma_rule_named(cfg, f, "link_filter"@);
    lemma_rule_named(cfg, f, "mention_spam"@);
    lemma_rule_named(cfg, f, "caps"@);
    lemma_rule_named(cfg, f, "wall_of_text"@);
}

proof fn lemma_rule_named(cfg: AutoModSection, f: Findings, x: Seq<char>)
    ensures
        automod::fired_rules(cfg, f).contains(x) <==> ({
            ||| f.burst && x == "rate_burst"@
            ||| f.duplicate && x == "duplicate_content"@
            ||| f.flooding && x == "new_user_flooding"@
            ||| f.keyword_hits > 0 && x == "banned_keyword"@
            ||| automod::links_fire(cfg, f) && x == "link_filter"@
            ||| f.mentions > cfg.max_mentions && x == "mention_spam"@
            ||| f.caps && x == "caps"@
            ||| f.wall && x == "wall_of_text"@
        }),
{
    let s0 = Seq::<Seq<char>>::empty();
    let s1 = s0 + automod::named(f.burst, "rate_burst"@);
    let s2 = s1 + automod::named(f.duplicate, "duplicate_content"@);
    let s3 = s2 + automod::named(f.flooding, "new_user_flooding"@);
    let s4 = s3 + automod::named(f.keyword_hits > 0, "banned_keyword"@);
    let s5 = s4 + automod::named(automod::links_fire(cfg, f), "link_filter"@);
    let s6 = s5 + automod::named(f.mentions > cfg.max_mentions, "mention_spam"@);
    let s7 = s6 + automod::named(f.caps, "caps"@);
    lemma_named_after(s0, f.burst, "rate_burst"@, x);
    lemma_named_after(s1, f.duplicate, "duplicate_content"@, x);
    lemma_named_after(s2, f.flooding, "new_user_flooding"@, x);
    lemma_named_after(s3, f.keyword_hits > 0, "banned_keyword"@, x);
    lemma_named_after(s4, automod::links_fire(cfg, f), "link_filter"@, x);
    lemma_named_after(s5, f.mentions > cfg.max_mentions, "mention_spam"@, x);
    lemma_named_after(s6, f.caps, "caps"@, x);
    lemma_named_after(s7, f.wall, "wall_of_text"@, x);
}

proof fn lemma_named_after(s: Seq<Seq<char>>, fired: bool, name: Seq<char>, x: Seq<char>)
    ensures
        (s + automod::named(fired, name)).contains(x) <==> s.contains(x) || (fired && x == name),
{
    let t = s + automod::named(fired, name);
    if s.contains(x) {
        let k = choose|k: int| 0 <= k < s.len() && s[k] == x;
        assert(t[k] == x);
    }
    if fired && x == name {
        assert(t[s.len() as int] == x);
    }
}

// ---------------------------------------------------------------------------
// What is found in a message
// ---------------------------------------------------------------------------

/// A burst is more messages than allowed that were sent within the burst window, this one among
/// them.
pub proof fn law_burst_is_found(
    u: UserView,
    filters: FiltersView,
    cfg: AutoModSection,
    s: Seq<char>,
    now: u64,
)
    ensures
        automod::found(automod::remembered(u, cfg, s, now), filters, cfg, s, now).burst
            <==> u.messages.filter(|m: MsgView| m.at + cfg.burst_window_secs >= now).len() + 1
            > cfg.max_messages,
{
    let p = |m: MsgView| m.at + cfg.burst_window_secs >= now;
    let after = automod::remembered(u, cfg, s, now).messages;
    let kept = automod::recent_messages(u.messages, now, automod::widest(cfg));
    lemma_recent_twice(u.messages, now, cfg.burst_window_secs, automod::widest(cfg));
    lemma_recent_is_filter(u.messages, now, cfg.burst_window_secs, p);
    assert(after.drop_last() =~= kept);
}

/// A message is a duplicate where as many as it takes, this one among them, were sent with the
/// same text within the window for duplicates. A blank one is none.
pub proof fn law_duplicate_is_found(
    u: UserView,
    filters: FiltersView,
    cfg: AutoModSection,
    s: Seq<char>,
    now: u64,
)
    ensures
        automod::found(automod::remembered(u, cfg, s, now), filters, cfg, s, now).duplicate
            <==> automod::normalized(s).len() > 0 && u.messages.filter(
            |m: MsgView|
                m.at + cfg.dedupe_window_secs >= now && m.normalized == automod::normalized(s),
        ).len() + 1 >= cfg.max_duplicates,
{
    let what = automod::normalized(s);
    let p = |m: MsgView|
        m.at + cfg.dedupe_window_secs >= now && m.normalized == automod::normalized(s);
    let after = automod::remembered(u, cfg, s, now).messages;
    let kept = automod::recent_messages(u.messages, now, automod::widest(cfg));
    lemma_same_twice(u.messages, now, cfg.dedupe_window_secs, automod::widest(cfg), what);
    lemma_same_is_filter(u.messages, now, cfg.dedupe_window_secs, what, p);
    assert(after.drop_last() =~= kept);
}

/// Someone is new for as long as the grace lasts from when they joined, and floods with more
/// messages than allowed since then, this one among them. Of someone whose joining was not seen
/// neither holds.
pub proof fn law_flooding_is_found(
    u: UserView,
    filters: FiltersView,
    cfg: AutoModSection,
    s: Seq<char>,
    now: u64,
)
    requires
        u.msgs_since_join < u32::MAX,
    ensures
        ({
            let f = automod::found(automod::remembered(u, cfg, s, now), filters, cfg, s, now);
            let recent = u.join_time is Some && u.join_time->0 + cfg.new_user_grace_secs >= now;
            &&& f.new_user <==> recent
            &&& f.flooding <==> recent && u.msgs_since_join + 1 > cfg.new_user_max_msgs
        }),
{
}

/// Every message from someone new is counted, and no other; what else is remembered of when they
/// joined stays.
pub proof fn law_messages_since_joining(u: UserView, cfg: AutoModSection, s: Seq<char>, now: u64)
    requires
        u.msgs_since_join < u32::MAX,
    ensures
        automod::remembered(u, cfg, s, now).join_time == u.join_time,
        automod::remembered(u, cfg, s, now).msgs_since_join == u.msgs_since_join + if u.join_time
            is Some && u.join_time->0 + cfg.new_user_grace_secs >= now {
            1int
        } else {
            0
        },
{
}

/// Violations are remembered for as long as they count, and so are messages for as long as any
/// rule counts them.
pub proof fn law_memory_is_long_enough(u: UserView, cfg: AutoModSection, s: Seq<char>, now: u64)
    ensures
        automod::remembered(u, cfg, s, now).violations == u.violations.filter(
            |v: ViolationView| v.at + cfg.escalation_window_secs >= now,
        ),
        automod::remembered(u, cfg, s, now).messages.last() == (MsgView {
            at: now,
            normalized: automod::normalized(s),
        }),
        forall|m: MsgView|
            #![trigger u.messages.contains(m)]
            u.messages.contains(m) && (m.at + cfg.burst_window_secs >= now || m.at
                + cfg.dedupe_window_secs >= now) ==> automod::remembered(
                u,
                cfg,
                s,
                now,
            ).messages.contains(m),
{
    let p = |v: ViolationView| v.at + cfg.escalation_window_secs >= now;
    lemma_violations_are_filter(u.violations, now, cfg.escalation_window_secs, p);
    let wide = automod::widest(cfg);
    let q = |m: MsgView| m.at + wide >= now;
    lemma_recent_is_filter(u.messages, now, wide, q);
    let after = automod::remembered(u, cfg, s, now).messages;
    assert forall|m: MsgView|
        #![trigger u.messages.contains(m)]
        u.messages.contains(m) && (m.at + cfg.burst_window_secs >= now || m.at
            + cfg.dedupe_window_secs >= now) implies after.contains(m) by {
        let i = choose|i: int| 0 <= i < u.messages.len() && u.messages[i] == m;
        u.messages.lemma_filter_contains(q, i);
        let kept = u.messages.filter(q);
        let k = choose|k: int| 0 <= k < kept.len() && kept[k] == m;
        assert(after[k] == m);
    }
}

/// What is found of words, links and length: each banned word that the text holds in lower case,
/// each pattern that matches it, each link to a host that is not allowed, and a text longer than
/// allowed.
pub proof fn law_contents_are_found(
    u: UserView,
    filters: FiltersView,
    cfg: AutoModSection,
    s: Seq<char>,
    now: u64,
)
    requires
        filters.words.len() + filters.patterns.len() <= u64::MAX,
        crate::pattern::pattern_found(automod::url_pattern(), s).len() <= u64::MAX,
    ensures
        ({
            let f = automod::found(u, filters, cfg, s, now);
            let urls = crate::pattern::pattern_found(automod::url_pattern(), s);
            &&& f.keyword_hits == filters.words.filter(
                |w: Seq<char>| w.len() > 0 && text::has_substring(text::str_lowercase(s), w),
            ).len() + filters.patterns.filter(
                |p: Seq<char>| crate::pattern::pattern_matches(p, s),
            ).len()
            &&& f.links == urls.len()
            &&& f.bad_links == urls.filter(
                |x: Seq<char>| !automod::allowed(x, filters.allowlist),
            ).len()
            &&& f.wall <==> text::byte_len(s) > cfg.max_msg_length
        }),
{
    let urls = crate::pattern::pattern_found(automod::url_pattern(), s);
    let lower = text::str_lowercase(s);
    let p = |w: Seq<char>| w.len() > 0 && text::has_substring(text::str_lowercase(s), w);
    let q = |x: Seq<char>| crate::pattern::pattern_matches(x, s);
    let r = |x: Seq<char>| !automod::allowed(x, filters.allowlist);
    lemma_words_are_filter(filters.words, lower, p);
    lemma_patterns_are_filter(filters.patterns, s, q);
    lemma_strangers_are_filter(urls, filters.allowlist, r);
    filters.words.lemma_filter_len(p);
    filters.patterns.lemma_filter_len(q);
    urls.lemma_filter_len(r);
}

/// A text is mostly in capitals where it is long enough and its capitals are at least the share
/// of its letters that is allowed to none. Characters that are no letters do not count.
pub proof fn law_capitals_are_found(
    u: UserView,
    filters: FiltersView,
    cfg: AutoModSection,
    s: Seq<char>,
    now: u64,
)
    requires
        cfg.caps_threshold_pct > 0,
    ensures
        automod::found(u, filters, cfg, s, now).caps <==> ({
            let all = s.filter(|c: char| text::char_is_alphabetic(c)).len();
            let large = s.filter(
                |c: char| text::char_is_alphabetic(c) && text::char_is_uppercase(c),
            ).len();
            text::byte_len(s) >= cfg.caps_min_length && all > 0 && 100 * large
                >= cfg.caps_threshold_pct * all
        }),
{
    let p = |c: char| text::char_is_alphabetic(c);
    let q = |c: char| text::char_is_alphabetic(c) && text::char_is_uppercase(c);
    lemma_letters_are_filter(s, p, q);
    let all = automod::letters(s) as int;
    let large = automod::capitals(s) as int;
    let pct = cfg.caps_threshold_pct as int;
    if all > 0 {
        assert((large * 100) / all >= pct <==> 100 * large >= pct * all) by (nonlinear_arith)
            requires
                all > 0,
                large >= 0,
                pct > 0,
        ;
    }
}

proof fn lemma_recent_is_filter(
    v: Seq<MsgView>,
    now: u64,
    window: u64,
    p: spec_fn(MsgView) -> bool,
)
    requires
        forall|m: MsgView| #[trigger] p(m) <==> m.at + window >= now,
    ensures
        automod::recent_messages(v, now, window) == v.filter(p),
    decreases v.len(),
{
    reveal(Seq::filter);
    if v.len() > 0 {
        lemma_recent_is_filter(v.drop_last(), now, window, p);
    }
}

proof fn lemma_recent_twice(v: Seq<MsgView>, now: u64, narrow: u64, wide: u64)
    requires
        narrow <= wide,
    ensures
        automod::recent_messages(automod::recent_messages(v, now, wide), now, narrow)
            == automod::recent_messages(v, now, narrow),
    decreases v.len(),
{
    if v.len() > 0 {
        let kept = automod::recent_messages(v.drop_last(), now, wide);
        lemma_recent_twice(v.drop_last(), now, narrow, wide);
        assert(kept.push(v.last()).drop_last() =~= kept);
    }
}

proof fn lemma_same_is_filter(
    v: Seq<MsgView>,
    now: u64,
    window: u64,
    what: Seq<char>,
    p: spec_fn(MsgView) -> bool,
)
    requires
        forall|m: MsgView| #[trigger] p(m) <==> m.at + window >= now && m.normalized == what,
    ensures
        automod::same_texts(v, now, window, what) == v.filter(p).len(),
    decreases v.len(),
{
    reveal(Seq::filter);
    if v.len() > 0 {
        lemma_same_is_filter(v.drop_last(), now, window, what, p);
    }
}

proof fn lemma_same_twice(v: Seq<MsgView>, now: u64, narrow: u64, wide: u64, what: Seq<char>)
    requires
        narrow <= wide,
    ensures
        automod::same_texts(automod::recent_messages(v, now, wide), now, narrow, what)
            == automod::same_texts(v, now, narrow, what),
    decreases v.len(),
{
    if v.len() > 0 {
        let kept = automod::recent_messages(v.drop_last(), now, wide);
        lemma_same_twice(v.drop_last(), now, narrow, wide, what);
        assert(kept.push(v.last()).drop_last() =~= kept);
    }
}

proof fn lemma_violations_are_filter(
    v: Seq<ViolationView>,
    now: u64,
    window: u64,
    p: spec_fn(ViolationView) -> bool,
)
    requires
        forall|m: ViolationView| #[trigger] p(m) <==> m.at + window >= now,
    ensures
        automod::recent_violations(v, now, window) == v.filter(p),
    decreases v.len(),
{
    reveal(Seq::filter);
    if v.len() > 0 {
        lemma_violations_are_filter(v.drop_last(), now, window, p);
    }
}

proof fn lemma_words_are_filter(
    words: Seq<Seq<char>>,
    lower: Seq<char>,
    p: spec_fn(Seq<char>) -> bool,
)
    requires
        forall|w: Seq<char>| #[trigger] p(w) <==> w.len() > 0 && text::has_substring(lower, w),
    ensures
        automod::words_hit(words, lower) == words.filter(p).len(),
    decreases words.len(),
{
    reveal(Seq::filter);
    if words.len() > 0 {
        lemma_words_are_filter(words.drop_last(), lower, p);
    }
}

proof fn lemma_patterns_are_filter(
    patterns: Seq<Seq<char>>,
    s: Seq<char>,
    p: spec_fn(Seq<char>) -> bool,
)
    requires
        forall|w: Seq<char>| #[trigger] p(w) <==> crate::pattern::pattern_matches(w, s),
    ensures
        automod::patterns_hit(patterns, s) == patterns.filter(p).len(),
    decreases patterns.len(),
{
    reveal(Seq::filter);
    if patterns.len() > 0 {
        lemma_patterns_are_filter(patterns.drop_last(), s, p);
    }
}

proof fn lemma_strangers_are_filter(
    urls: Seq<Seq<char>>,
    list: Seq<Seq<char>>,
    p: spec_fn(Seq<char>) -> bool,
)
    requires
        forall|x: Seq<char>| #[trigger] p(x) <==> !automod::allowed(x, list),
    ensures
        automod::strangers(urls, list) == urls.filter(p).len(),
    decreases urls.len(),
{
    reveal(Seq::filter);
    if urls.len() > 0 {
        lemma_strangers_are_filter(urls.drop_last(), list, p);
    }
}

proof fn lemma_letters_are_filter(
    s: Seq<char>,
    p: spec_fn(char) -> bool,
    q: spec_fn(char) -> bool,
)
    requires
        forall|c: char| #[trigger] p(c) <==> text::char_is_alphabetic(c),
        forall|c: char| #[trigger]
            q(c) <==> text::char_is_alphabetic(c) && text::char_is_uppercase(c),
    ensures
        automod::letters(s) == s.filter(p).len(),
        automod::capitals(s) == s.filter(q).len(),
    decreases s.len(),
{
    reveal(Seq::filter);
    if s.len() > 0 {
        lemma_letters_are_filter(s.drop_last(), p, q);
    }
}

// ---------------------------------------------------------------------------
// Links
// ---------------------------------------------------------------------------

/// Whether a text can be the name of a host.
pub open spec fn host_name(s: Seq<char>) -> bool {
    forall|i: int|
        0 <= i < s.len() ==> !((#[trigger] s[i]) == '/' || s[i] == '?' || s[i] == '#' || s[i] == '@'
            || s[i] == ':')
}

/// Whether a text stays before the path of an address.
pub open spec fn before_path(s: Seq<char>) -> bool {
    forall|i: int| 0 <= i < s.len() ==> (#[trigger] s[i]) != '/' && s[i] != '?' && s[i] != '#'
}

/// The host of an address is what stands between its scheme, with a user behind it or not, and a
/// port, a path, a query or a fragment.
pub proof fn law_host_is_found(
    scheme: Seq<char>,
    user: Seq<char>,
    host: Seq<char>,
    port: Seq<char>,
    tail: Seq<char>,
)
    requires
        scheme == "https://"@ || scheme == "http://"@,
        user.len() == 0 || user.last() == '@',
        before_path(user),
        host_name(host),
        port.len() == 0 || port[0] == ':',
        before_path(port),
        !port.contains('@'),
        tail.len() == 0 || tail[0] == '/' || tail[0] == '?' || tail[0] == '#',
    ensures
        automod::host_of(scheme + user + host + port + tail) == host,
{
    reveal_strlit("https://");
    reveal_strlit("http://");
    let url = scheme + user + host + port + tail;
    let place = host + port;
    let authority = user + place;
    let rest = authority + tail;
    assert(url.subrange(0, scheme.len() as int) =~= scheme);
    assert(url.skip(scheme.len() as int) =~= rest);
    if scheme == "http://"@ {
        assert(url[4] == ':' && "https://"@[4] == 's');
        if "https://"@.is_prefix_of(url) {
            assert(url.subrange(0, 8)[4] == 's');
        }
    }
    lemma_place_in_authority(user, host, port);
    lemma_authority(authority, tail);
    assert(rest.take(authority.len() as int) =~= authority);
}

#[verifier::rlimit(30)]
proof fn lemma_place_in_authority(user: Seq<char>, host: Seq<char>, port: Seq<char>)
    requires
        user.len() == 0 || user.last() == '@',
        before_path(user),
        host_name(host),
        port.len() == 0 || port[0] == ':',
        before_path(port),
        !port.contains('@'),
    ensures
        ({
            let place = host + port;
            let authority = user + place;
            &&& forall|i: int|
                0 <= i < authority.len() ==> !automod::ends_authority(#[trigger] authority[i])
            &&& text::pieces(authority, '@').last() == place
            &&& text::first_of(place, ':') == host.len()
            &&& place.take(host.len() as int) == host
        }),
{
    let place = host + port;
    let authority = user + place;
    assert forall|i: int| 0 <= i < authority.len() implies !automod::ends_authority(
        #[trigger] authority[i],
    ) by {
        if i < user.len() {
            assert(authority[i] == user[i]);
        } else if i < user.len() + host.len() {
            assert(authority[i] == host[i - user.len()]);
        } else {
            assert(authority[i] == port[i - user.len() - host.len()]);
        }
    }
    if place.contains('@') {
        let k = choose|k: int| 0 <= k < place.len() && place[k] == '@';
        if k < host.len() {
            assert(host[k] == '@');
        } else {
            assert(port[k - host.len()] == '@');
        }
    }
    if user.len() > 0 {
        let name = user.drop_last();
        assert(name.push('@') =~= user);
        text::lemma_last_piece(name, place, '@');
        assert(text::pieces(authority, '@').last() == place);
    } else {
        assert(authority =~= place);
        text::lemma_one_piece(place, '@');
    }
    assert forall|j: int| 0 <= j < host.len() implies place[j] != ':' by {
        assert(place[j] == host[j]);
    }
    text::lemma_first_of(place, ':', host.len() as int);
    assert(place.take(host.len() as int) =~= host);
}

proof fn lemma_authority(a: Seq<char>, tail: Seq<char>)
    requires
        forall|i: int| 0 <= i < a.len() ==> !automod::ends_authority(#[trigger] a[i]),
        tail.len() == 0 || automod::ends_authority(tail[0]),
    ensures
        automod::authority_len(a + tail) == a.len(),
    decreases a.len(),
{
    let all = a + tail;
    if a.len() > 0 {
        let rest = a.drop_first();
        assert(all[0] == a[0]);
        assert(all.drop_first() =~= rest + tail);
        assert forall|i: int| 0 <= i < rest.len() implies !automod::ends_authority(
            #[trigger] rest[i],
        ) by {
            assert(rest[i] == a[i + 1]);
        }
        lemma_authority(rest, tail);
    } else {
        assert(all =~= tail);
    }
}

/// A link is allowed where its host, in lower case, is a domain of the list or one below it, and
/// nowhere else.
pub proof fn law_domains_are_allowed(url: Seq<char>, list: Seq<Seq<char>>)
    ensures
        automod::allowed(url, list) <==> automod::host_of(url).len() > 0 && exists|i: int|
            0 <= i < list.len() && at_or_below(
                text::str_lowercase(automod::host_of(url)),
                text::str_lowercase(#[trigger] list[i]),
            ),
{
    let host = text::str_lowercase(automod::host_of(url));
    assert forall|i: int| 0 <= i < list.len() implies automod::in_domain(host, #[trigger] list[i])
        == at_or_below(host, text::str_lowercase(list[i])) by {
        lemma_in_domain(host, list[i]);
    }
    if automod::allowed(url, list) {
        let i = choose|i: int|
            0 <= i < list.len() && automod::in_domain(host, #[trigger] list[i]);
        assert(at_or_below(host, text::str_lowercase(list[i])));
    }
    if exists|i: int|
        0 <= i < list.len() && at_or_below(host, text::str_lowercase(#[trigger] list[i])) {
        let i = choose|i: int|
            0 <= i < list.len() && at_or_below(host, text::str_lowercase(#[trigger] list[i]));
        assert(automod::in_domain(host, list[i]));
    }
}

/// Whether a host is a domain or has it behind a dot.
pub open spec fn at_or_below(host: Seq<char>, domain: Seq<char>) -> bool {
    host == domain || exists|sub: Seq<char>| #[trigger] (sub + "."@) + domain == host
}

proof fn lemma_in_domain(host: Seq<char>, domain: Seq<char>)
    ensures
        automod::in_domain(host, domain) == at_or_below(host, text::str_lowercase(domain)),
{
    let d = text::str_lowercase(domain);
    let tail = "."@ + d;
    if tail.is_suffix_of(host) {
        let sub = host.take(host.len() - tail.len());
        assert((sub + "."@) + d =~= host) by {
            assert(host =~= sub + host.subrange(host.len() - tail.len(), host.len() as int));
        }
    }
    if exists|sub: Seq<char>| #[trigger] (sub + "."@) + d == host {
        let sub = choose|sub: Seq<char>| #[trigger] (sub + "."@) + d == host;
        assert(host.subrange(host.len() - tail.len(), host.len() as int) =~= tail);
    }
}

// ---------------------------------------------------------------------------
// Texts that count as the same
// ---------------------------------------------------------------------------

/// Texts in ASCII that differ in their case, or in the whitespace around and between their words,
/// count as the same.
pub proof fn law_case_and_space_do_not_matter(a: Seq<char>, b: Seq<char>)
    requires
        text::ascii_only(a),
        text::ascii_only(b),
        text::words(a).len() == text::words(b).len(),
        forall|i: int|
            0 <= i < text::words(a).len() ==> text::str_lowercase(#[trigger] text::words(a)[i])
                == text::str_lowercase(text::words(b)[i]),
    ensures
        automod::normalized(a) == automod::normalized(b),
{
    lemma_words_ascii(a);
    lemma_words_ascii(b);
    lemma_joined_lower(text::words(a));
    lemma_joined_lower(text::words(b));
    let la = text::words(a).map_values(|w: Seq<char>| text::str_lowercase(w));
    let lb = text::words(b).map_values(|w: Seq<char>| text::str_lowercase(w));
    assert(la =~= lb) by {
        assert forall|i: int| 0 <= i < la.len() implies la[i] == lb[i] by {
            assert(text::str_lowercase(text::words(a)[i]) == text::str_lowercase(
                text::words(b)[i],
            ));
        }
    }
}

#[verifier::rlimit(30)]
proof fn lemma_words_ascii(s: Seq<char>)
    requires
        text::ascii_only(s),
    ensures
        forall|i: int| 0 <= i < text::words(s).len() ==> text::ascii_only(#[trigger] text::words(s)[i]),
    decreases s.len(),
{
    if s.len() > 0 {
        let init = s.drop_last();
        assert(text::ascii_only(init)) by {
            assert forall|i: int| 0 <= i < init.len() implies '\0' <= #[trigger] init[i]
                <= '\u{7f}' by {
                assert(init[i] == s[i]);
            }
        }
        assert('\0' <= s[s.len() - 1] <= '\u{7f}');
        lemma_words_ascii(init);
        let before = text::words(init);
        let all = text::words(s);
        assert forall|i: int| 0 <= i < all.len() implies text::ascii_only(#[trigger] all[i]) by {
            if text::char_is_whitespace(s.last()) {
            } else if s.len() >= 2 && !text::char_is_whitespace(s[s.len() - 2]) {
                lemma_words_nonempty(init);
                if i == all.len() - 1 {
                    let w = before[before.len() - 1];
                    assert(text::ascii_only(w));
                    assert(all[i] == w.push(s.last()));
                } else {
                    assert(all[i] == before[i]);
                }
            } else {
                if i < before.len() {
                    assert(all[i] == before[i]);
                }
            }
        }
    }
}

proof fn lemma_words_nonempty(s: Seq<char>)
    ensures
        s.len() > 0 && !text::char_is_whitespace(s.last()) ==> text::words(s).len() > 0,
{
}

proof fn lemma_joined_lower(parts: Seq<Seq<char>>)
    requires
        forall|i: int| 0 <= i < parts.len() ==> text::ascii_only(#[trigger] parts[i]),
    ensures
        text::ascii_only(text::joined(parts, " "@)),
        text::str_lowercase(text::joined(parts, " "@)) == text::joined(
            parts.map_values(|w: Seq<char>| text::str_lowercase(w)),
            " "@,
        ),
    decreases parts.len(),
{
    reveal_strlit(" ");
    let low = parts.map_values(|w: Seq<char>| text::str_lowercase(w));
    let whole = text::joined(parts, " "@);
    if parts.len() > 0 {
        let init = parts.drop_last();
        assert forall|i: int| 0 <= i < init.len() implies text::ascii_only(#[trigger] init[i]) by {
            assert(init[i] == parts[i]);
        }
        lemma_joined_lower(init);
        assert(text::ascii_only(parts[parts.len() - 1]));
        assert(low.drop_last() =~= init.map_values(|w: Seq<char>| text::str_lowercase(w)));
        assert(low.last() == text::str_lowercase(parts.last()));
        assert(text::ascii_only(whole));
        assert(text::str_lowercase(whole) =~= text::joined(low, " "@));
    } else {
        assert(text::str_lowercase(whole) =~= text::joined(low, " "@));
    }
}

} // verus!
