//! What holds of experience for messages, reputation, giveaways and welcomes as a whole.

use vstd::prelude::*;
use crate::community::{CommunityView, GiveawayView};
use crate::config::FeaturesSection;
use crate::handlers::Welcomes;
use crate::handlers::community_cmds;
use crate::handlers::community_cmds::{DrawnView, RequestView};
use crate::{community, cooldown, handlers, number, text};

verus! {

// ---------------------------------------------------------------------------
// Experience for messages and reactions
// ---------------------------------------------------------------------------

/// A message adds one to the messages of its sender and the drawn points to their experience, and
/// says nothing of anyone else.
pub proof fn law_message_is_rewarded(
    db: CommunityView,
    npub: Seq<char>,
    channel: Seq<char>,
    xp: i64,
    now: i64,
    other: Seq<char>,
)
    requires
        db.user(npub, now).messages_sent < i64::MAX,
        community::fits(db.user(npub, now).xp + xp),
        other != npub,
    ensures
        ({
            let before = db.user(npub, now);
            let after = handlers::message_rewarded(db, npub, channel, xp, now);
            &&& after.users[npub].messages_sent == before.messages_sent + 1
            &&& after.users[npub].xp == before.xp + xp
            &&& after.users[npub].level == community::level_of(before.xp + xp)
            &&& after.users[npub].rep == before.rep
            &&& after.user(other, now) == db.user(other, now)
            &&& after.on_cooldown(npub, 60, now)
        }),
{
    community::law_level_brackets_xp(db.user(npub, now).xp + xp);
}

/// A new level is announced exactly where the points of a message lift its sender above the level
/// they had, and the announcement names the sender and the level.
pub proof fn law_new_level_is_announced(db: CommunityView, npub: Seq<char>, xp: i64, now: i64)
    requires
        community::fits(db.user(npub, now).xp + xp),
        db.user(npub, now).messages_sent < i64::MAX,
    ensures
        ({
            let before = db.user(npub, now);
            let level = community::level_of(before.xp + xp);
            let said = handlers::level_up(db, npub, xp, now);
            &&& said is Some <==> level > before.level
            &&& said is Some ==> said->0 == "🎉 nostr:"@ + npub + " reached Level "@
                + number::signed_decimal(level) + "!"@
        }),
{
}

/// A reaction rewards the author of the message and nobody else, unless the author is the bot,
/// there is no reaction, or community features are off.
pub proof fn law_reaction_rewards_the_author(
    db: CommunityView,
    features: FeaturesSection,
    bot: Seq<char>,
    author: Seq<char>,
    reactions: usize,
    chat: Seq<char>,
    xp: i64,
    now: i64,
    other: Seq<char>,
)
    requires
        community::fits(db.user(author, now).xp + xp),
        other != author,
    ensures
        ({
            let after = handlers::reaction_rewarded(
                db,
                features,
                bot,
                Some(author),
                reactions,
                chat,
                xp,
                now,
            );
            let counts = features.community && reactions > 0 && author != bot;
            &&& counts ==> after.users[author].xp == db.user(author, now).xp + xp
            &&& !counts ==> after == db
            &&& after.user(other, now) == db.user(other, now)
        }),
        handlers::reaction_rewarded(db, features, bot, None, reactions, chat, xp, now) == db,
{
}

// ---------------------------------------------------------------------------
// Welcomes
// ---------------------------------------------------------------------------

/// A member is welcomed at most once an hour in a channel. The bot is not, and nobody is where
/// welcomes or community features are off.
pub proof fn law_welcomed_once_an_hour(
    w: Welcomes,
    features: FeaturesSection,
    bot: Seq<char>,
    channel: Seq<char>,
    npub: Seq<char>,
    now: u64,
    again: Welcomes,
    later: u64,
)
    requires
        again.enabled == w.enabled,
        again.given@ == cooldown::stamped(w.given@, channel, npub, now),
        now <= later,
    ensures
        handlers::is_welcomed(again, features, bot, channel, npub, later) <==> npub != bot
            && features.community && w.enabled && later >= now + 60 * 60 * 1_000_000_000,
        !w.enabled || !features.community || npub == bot ==> !handlers::is_welcomed(
            w,
            features,
            bot,
            channel,
            npub,
            now,
        ),
        w.enabled && features.community && npub != bot && !(w.given@.dom().contains(channel)
            && w.given@[channel].dom().contains(npub)) ==> handlers::is_welcomed(
            w,
            features,
            bot,
            channel,
            npub,
            now,
        ),
{
}

/// A user is meant by their npub, with `nostr:` or `@` before it or not, and with whitespace around
/// it.
pub proof fn law_npub_is_meant(before: Seq<char>, npub: Seq<char>, after: Seq<char>)
    requires
        npub.len() > 0,
        npub[0] != '@',
        !("nostr:"@.is_prefix_of(npub)),
        forall|i: int| 0 <= i < npub.len() ==> !text::char_is_whitespace(#[trigger] npub[i]),
        forall|i: int| 0 <= i < before.len() ==> text::char_is_whitespace(#[trigger] before[i]),
        forall|i: int| 0 <= i < after.len() ==> text::char_is_whitespace(#[trigger] after[i]),
    ensures
        handlers::plain_npub(before + npub + after) == npub,
        handlers::plain_npub(before + ("nostr:"@ + npub) + after) == npub,
        handlers::plain_npub(before + ("@"@ + npub) + after) == npub,
        handlers::plain_npub(before + ("nostr:@"@ + npub) + after) == npub,
{
    reveal_strlit("nostr:");
    reveal_strlit("@");
    reveal_strlit("nostr:@");
    assert(npub.last() == npub[npub.len() - 1]);
    text::lemma_trim_around(before, npub, after);
    let named = "nostr:"@ + npub;
    assert(named[0] == 'n' && named.last() == npub.last());
    text::lemma_trim_around(before, named, after);
    assert(named.subrange(0, 6) =~= "nostr:"@);
    assert(named.skip(6) =~= npub);
    let at = "@"@ + npub;
    assert(at[0] == '@' && at.last() == npub.last());
    text::lemma_trim_around(before, at, after);
    if "nostr:"@.is_prefix_of(at) {
        assert(at.subrange(0, 6)[0] == 'n');
    }
    assert(at.drop_first() =~= npub);
    let both = "nostr:@"@ + npub;
    assert(both[0] == 'n' && both.last() == npub.last());
    text::lemma_trim_around(before, both, after);
    assert(both.subrange(0, 6) =~= "nostr:"@);
    assert(both.skip(6) =~= at);
}

// ---------------------------------------------------------------------------
// Reputation
// ---------------------------------------------------------------------------

/// Reputation that is given adds one point of it and fifty of experience to the receiver, and
/// nothing to the giver; within a day of the last time nothing is added.
pub proof fn law_reputation_is_given(
    db: CommunityView,
    from: Seq<char>,
    to: Seq<char>,
    chat: Seq<char>,
    now: i64,
    later: i64,
)
    requires
        from != to,
        community::fits(db.user(to, now).rep + 1),
        community::fits(db.user(to, now).xp + 50),
    ensures
        ({
            let after = community_cmds::rep_outcome(db, from, to, chat, now).0;
            let before = db.user(to, now);
            &&& !db.rep_on_cooldown(from, to, now) ==> {
                &&& after.users[to].rep == before.rep + 1
                &&& after.users[to].xp == before.xp + 50
                &&& after.rep_on_cooldown(from, to, later) <==> later < now + 86400
            }
            &&& db.rep_on_cooldown(from, to, now) ==> after.user(to, now) == before
                && after.reputation == db.reputation
            &&& after.user(from, now) == db.user(from, now)
        }),
{
    crate::community_laws::law_reputation_waits_a_day(db, from, to, now, later);
    community::law_level_brackets_xp(db.user(to, now).xp + 50);
    let after = community_cmds::rep_outcome(db, from, to, chat, now).0;
    if !db.rep_on_cooldown(from, to, now) {
        assert(after.reputation == community::rep_given(db.reputation, from, to, now));
    }
}

// ---------------------------------------------------------------------------
// Giveaways
// ---------------------------------------------------------------------------

/// A number of minutes or hours is so many times sixty or three thousand six hundred seconds; a
/// bare number is one of minutes.
pub proof fn law_durations_are_read(n: nat)
    requires
        n <= u64::MAX,
    ensures
        community_cmds::duration_secs(number::decimal(n) + "m"@) == Some(60 * n),
        community_cmds::duration_secs(number::decimal(n) + "M"@) == Some(60 * n),
        community_cmds::duration_secs(number::decimal(n) + "h"@) == Some(60 * (60 * n)),
        community_cmds::duration_secs(number::decimal(n) + "H"@) == Some(60 * (60 * n)),
        community_cmds::duration_secs(number::decimal(n)) == Some(60 * n),
{
    let d = number::decimal(n);
    reveal_strlit("m");
    assert("m"@ =~= seq!['m']);
    reveal_strlit("M");
    assert("M"@ =~= seq!['M']);
    reveal_strlit("h");
    assert("h"@ =~= seq!['h']);
    reveal_strlit("H");
    assert("H"@ =~= seq!['H']);
    number::law_decimal_round_trip(n, u64::MAX as nat);
    lemma_digits_and(d, "m"@, 'm', 'm', n);
    lemma_digits_and(d, "M"@, 'M', 'm', n);
    lemma_digits_and(d, "h"@, 'h', 'h', n);
    lemma_digits_and(d, "H"@, 'H', 'h', n);
    number::lemma_decimal_digits(n);
    lemma_digits_lower(d);
    let none = Seq::<char>::empty();
    assert(none + d + none =~= d);
    assert(number::is_digit(d[0]) && number::is_digit(d[d.len() - 1]));
    text::lemma_trim_around(none, d, none);
    assert(d.last() != 'm' && d.last() != 'h');
    assert(n * 3600 == 60 * (60 * n));
}

proof fn lemma_digits_lower(d: Seq<char>)
    requires
        number::all_digits(d),
    ensures
        text::ascii_only(d),
        text::str_lowercase(d) == d,
{
    assert forall|i: int| 0 <= i < d.len() implies '\0' <= #[trigger] d[i] <= '\u{7f}' by {
        assert(number::is_digit(d[i]));
    }
    let low = text::str_lowercase(d);
    assert(low =~= d) by {
        assert forall|i: int| 0 <= i < d.len() implies low[i] == d[i] by {
            assert(number::is_digit(d[i]));
        }
    }
}

proof fn lemma_digits_and(d: Seq<char>, unit: Seq<char>, c: char, low: char, n: nat)
    requires
        d == number::decimal(n),
        unit == seq![c],
        c == 'm' || c == 'M' || c == 'h' || c == 'H',
        low == text::ascii_lower(c),
    ensures
        text::str_lowercase(text::trimmed(d + unit)) == d.push(low),
        d.push(low).last() == low,
        d.push(low).drop_last() == d,
{
    number::lemma_decimal_digits(n);
    let all = d + unit;
    let none = Seq::<char>::empty();
    assert(none + all + none =~= all);
    assert(number::is_digit(d[0]));
    assert(all[0] == d[0] && all.last() == c);
    text::lemma_trim_around(none, all, none);
    assert forall|i: int| 0 <= i < all.len() implies '\0' <= #[trigger] all[i] <= '\u{7f}' by {
        if i < d.len() {
            assert(number::is_digit(d[i]));
        }
    }
    let lowered = text::str_lowercase(all);
    assert(lowered =~= d.push(low)) by {
        assert forall|i: int| 0 <= i < all.len() implies lowered[i] == d.push(low)[i] by {
            if i < d.len() {
                assert(number::is_digit(d[i]));
                assert(all[i] == d[i]);
            }
        }
    }
    assert(d.push(low).drop_last() =~= d);
}

/// A giveaway is started for a duration from one minute to twenty-four hours with what follows it
/// as the prize, and refused for any other duration.
pub proof fn law_giveaway_is_requested(args: Seq<char>)
    requires
        text::trimmed(args).len() > 0,
        text::trimmed(args) != "end"@,
        text::trimmed(args) != "list"@,
        text::tail_words(text::trimmed(args)) is Some,
        community_cmds::duration_secs(text::head_word(text::trimmed(args))) is Some,
    ensures
        ({
            let secs = community_cmds::duration_secs(text::head_word(text::trimmed(args)))->0;
            let request = community_cmds::request_of(args);
            &&& request is Start <==> 60 <= secs <= 24 * 60 * 60
            &&& request is Start ==> request->secs == secs && request->prize == text::trimmed(
                text::tail_words(text::trimmed(args))->0,
            )
            &&& !(request is Start) ==> request is OutOfRange
        }),
{
}

/// A prize of so many sats is worth them, however `sats` is written; another prize is worth none.
pub proof fn law_prize_in_sats(n: nat)
    requires
        n <= i64::MAX,
    ensures
        community_cmds::prize_value(number::decimal(n) + " sats"@) == n,
        community_cmds::prize_value(number::decimal(n) + " sat"@) == n,
{
    let d = number::decimal(n);
    reveal_strlit(" sats");
    reveal_strlit(" sat");
    number::lemma_decimal_digits(n);
    number::law_signed_round_trip(n as int);
    lemma_prize(d, " sats"@);
    lemma_prize(d, " sat"@);
    let none = Seq::<char>::empty();
    assert(none + d + none =~= d);
    assert(number::is_digit(d[0]) && number::is_digit(d[d.len() - 1]));
    text::lemma_trim_around(none, d, none);
    let a = d + " sats"@;
    assert(a.subrange(a.len() - 5, a.len() as int) =~= " sats"@);
    assert(a.take(a.len() - 5) =~= d);
    let b = d + " sat"@;
    assert(b.subrange(b.len() - 4, b.len() as int) =~= " sat"@);
    assert(b.take(b.len() - 4) =~= d);
    if " sats"@.is_suffix_of(b) {
        assert(b.subrange(b.len() - 5, b.len() as int)[4] == 't');
        assert(" sats"@[4] == 's');
    }
}

proof fn lemma_prize(d: Seq<char>, unit: Seq<char>)
    requires
        number::all_digits(d),
        forall|i: int|
            0 <= i < unit.len() ==> (#[trigger] unit[i]) == ' ' || unit[i] == 's' || unit[i] == 'a'
                || unit[i] == 't',
    ensures
        text::str_lowercase(d + unit) == d + unit,
{
    let all = d + unit;
    assert forall|i: int| 0 <= i < all.len() implies '\0' <= #[trigger] all[i] <= '\u{7f}'
        && text::ascii_lower(all[i]) == all[i] by {
        if i < d.len() {
            assert(number::is_digit(d[i]));
        } else {
            assert(all[i] == unit[i - d.len()]);
        }
    }
    assert(text::ascii_only(all));
    let low = text::str_lowercase(all);
    assert(low =~= all) by {
        assert forall|i: int| 0 <= i < all.len() implies low[i] == all[i] by {
            assert('\0' <= all[i] <= '\u{7f}' && text::ascii_lower(all[i]) == all[i]);
        }
    }
}

/// A giveaway that was started runs in its channel until its time is over, for its prize; every
/// other giveaway is as it was. A key that is taken starts none.
pub proof fn law_started_giveaway_runs(
    db: CommunityView,
    channel: Seq<char>,
    secs: u64,
    prize: Seq<char>,
    prize_sats: i64,
    millis: u64,
    now: i64,
    other: Seq<char>,
)
    requires
        secs <= 86400,
        now <= i64::MAX - 86400,
    ensures
        ({
            let (after, said, id) = community_cmds::start_outcome(
                db,
                channel,
                secs,
                prize,
                prize_sats,
                millis,
                now,
            );
            &&& id is Some ==> {
                let g = after.giveaways[id->0];
                &&& !db.giveaways.dom().contains(id->0)
                &&& after.giveaways.dom().contains(id->0)
                &&& g.id == id->0 && g.active && g.winner_npub is None
                &&& g.channel_id == channel && g.prize == prize && g.prize_sats == prize_sats
                &&& g.starts_at == now && g.ends_at == now + secs
                &&& after.giveaway_ids == db.giveaway_ids.push(id->0)
                &&& other != id->0 ==> after.giveaways.dom().contains(other)
                    == db.giveaways.dom().contains(other) && after.giveaways[other]
                    == db.giveaways[other]
                &&& text::has_substring(said, prize)
            }
            &&& id is None ==> after == db
            &&& after.entries == db.entries && after.users == db.users
        }),
{
    let (after, said, id) = community_cmds::start_outcome(
        db,
        channel,
        secs,
        prize,
        prize_sats,
        millis,
        now,
    );
    if id is Some {
        let ends_at = (now + secs) as i64;
        let a = "🎉 **GIVEAWAY!**\n🎁 Prize: "@;
        let tail = "\n⏱️ Ends: in "@ + community_cmds::ends_in(ends_at, now)
            + "\n\nReact with 🎉 to enter!"@;
        text::lemma_substring_between(a, prize, tail);
        assert(a + prize + tail =~= said);
    }
}

/// Giveaways that are opened less than eleven days apart, at different milliseconds, have different
/// keys.
pub proof fn law_giveaway_keys_differ(a: u64, b: u64)
    requires
        a < b,
        b - a < 1_000_000_000,
    ensures
        community_cmds::giveaway_key(a) != community_cmds::giveaway_key(b),
{
    let x = (a % 1_000_000_000) as nat;
    let y = (b % 1_000_000_000) as nat;
    number::lemma_decimal_digits(x);
    number::lemma_decimal_digits(y);
    let ka = community_cmds::giveaway_key(a);
    let kb = community_cmds::giveaway_key(b);
    reveal_strlit("gw-");
    assert(ka.skip(3) =~= number::decimal(x));
    assert(kb.skip(3) =~= number::decimal(y));
}

/// Ending the giveaways of a channel leaves those of every other channel as they are, with their
/// entries.
pub proof fn law_other_channels_keep_running(
    db: CommunityView,
    channel: Seq<char>,
    draws: Seq<DrawnView>,
    id: Seq<char>,
)
    requires
        community::listed_soundly(db.giveaway_ids, db.giveaways),
        db.giveaways.dom().contains(id),
        db.giveaways[id].channel_id != channel || !db.giveaways[id].active,
    ensures
        community_cmds::settled_in(db, channel, draws).giveaways[id] == db.giveaways[id],
        community_cmds::settled_in(db, channel, draws).entries == db.entries,
        community_cmds::settled_in(db, channel, draws).users == db.users,
{
    let list = community::running(db.giveaway_ids, db.giveaways, Some(channel));
    lemma_running_kept(db.giveaway_ids, db.giveaways, channel, id);
    lemma_settled_leaves(db, list, draws, id);
}

proof fn lemma_running_kept(
    ids: Seq<Seq<char>>,
    giveaways: Map<Seq<char>, GiveawayView>,
    channel: Seq<char>,
    id: Seq<char>,
)
    requires
        community::kept_by_id(giveaways),
        forall|i: int| 0 <= i < ids.len() ==> #[trigger] giveaways.dom().contains(ids[i]),
        giveaways.dom().contains(id),
        giveaways[id].channel_id != channel || !giveaways[id].active,
    ensures
        forall|i: int|
            0 <= i < community::running(ids, giveaways, Some(channel)).len() ==> (
            #[trigger] community::running(ids, giveaways, Some(channel))[i]).id != id,
    decreases ids.len(),
{
    if ids.len() > 0 {
        let init = ids.drop_last();
        assert forall|i: int| 0 <= i < init.len() implies #[trigger] giveaways.dom().contains(
            init[i],
        ) by {
            assert(giveaways.dom().contains(ids[i]));
        }
        assert(giveaways.dom().contains(ids[ids.len() - 1]));
        lemma_running_kept(init, giveaways, channel, id);
    }
}

proof fn lemma_settled_leaves(
    db: CommunityView,
    list: Seq<GiveawayView>,
    draws: Seq<DrawnView>,
    id: Seq<char>,
)
    requires
        forall|i: int| 0 <= i < list.len() ==> (#[trigger] list[i]).id != id,
    ensures
        community_cmds::settled(db, list, draws).giveaways[id] == db.giveaways[id],
        community_cmds::settled(db, list, draws).entries == db.entries,
        community_cmds::settled(db, list, draws).users == db.users,
    decreases list.len(),
{
    if list.len() > 0 && draws.len() > 0 {
        let init = list.drop_last();
        assert(list[list.len() - 1] == list.last());
        assert forall|i: int| 0 <= i < init.len() implies (#[trigger] init[i]).id != id by {
            assert(init[i] == list[i]);
        }
        lemma_settled_leaves(db, init, draws.drop_last(), id);
    }
}

/// A draw is fair where the winner entered that giveaway, and only a giveaway that nobody entered
/// has none; the announcement names the prize, and the winner or that there was none.
pub proof fn law_draws_are_fair(
    db: CommunityView,
    channel: Seq<char>,
    draws: Seq<DrawnView>,
    i: int,
)
    requires
        community_cmds::drawn_in(db, channel, draws),
        0 <= i < draws.len(),
    ensures
        ({
            let g = community::running(db.giveaway_ids, db.giveaways, Some(channel))[i];
            let who = community::entrants(db.entries, g.id);
            let said = community_cmds::result_text(draws[i], "-"@);
            &&& draws[i].winner is None <==> who.len() == 0
            &&& draws[i].winner is Some ==> who.contains(draws[i].winner->0)
            &&& draws[i].prize == g.prize
            &&& text::has_substring(said, g.prize)
            &&& draws[i].winner is Some ==> community_cmds::shortened(
                draws[i].winner->0,
            ).is_suffix_of(said)
        }),
{
    let list = community::running(db.giveaway_ids, db.giveaways, Some(channel));
    let d = draws[i];
    assert(community_cmds::fair(db.entries, list[i], d));
    let said = community_cmds::result_text(d, "-"@);
    let a = "🎉 Giveaway ended!\n🎁 Prize: "@;
    if d.winner is Some {
        let w = community_cmds::shortened(d.winner->0);
        let tail = "\n🏆 Winner: "@ + w;
        text::lemma_substring_between(a, d.prize, tail);
        assert(a + d.prize + tail =~= said);
        assert(said.subrange(said.len() - w.len(), said.len() as int) =~= w);
    } else {
        let b = "-"@ + "\n🎁 Prize: "@;
        text::lemma_substring_between(b, d.prize, Seq::empty());
        assert(b + d.prize + Seq::empty() =~= said);
    }
}

/// What is left of a giveaway is told in hours and minutes, in minutes, or in seconds, whichever is
/// the largest that is whole.
pub proof fn law_time_left_is_told(now: i64, ends_at: i64, h: nat, m: nat, s: nat)
    requires
        m < 60,
        s < 60,
        ends_at == now + 3600 * h + 60 * m + s,
    ensures
        community_cmds::ends_in(ends_at, now) == if h > 0 {
            number::decimal(h) + "h "@ + number::decimal(m) + "m"@
        } else if m > 0 {
            number::decimal(m) + "m"@
        } else if s > 0 {
            number::decimal(s) + "s"@
        } else {
            "ended"@
        },
        forall|past: i64| past <= now ==> #[trigger] community_cmds::ends_in(past, now)
            == "ended"@,
{
}

} // verus!
