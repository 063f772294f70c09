//! What holds of how users, ranks and giveaways are shown.

use vstd::prelude::*;
use crate::auth::AuthView;
use crate::community;
use crate::community::{CommunityView, EntryView, GiveawayView};
use crate::handlers::community_cmds;
use crate::handlers::community_cmds::{DrawnView, RequestView};
use crate::handlers::moderation_laws;
use crate::handlers::OutgoingView;
use crate::{handlers, number, text};

verus! {

/// A long npub is shown by its first eight characters and its last four.
pub proof fn law_long_names_are_shortened(npub: Seq<char>)
    requires
        text::ascii_only(npub),
    ensures
        npub.len() > 16 ==> community_cmds::shortened(npub) == npub.take(8) + "..."@ + npub.skip(
            npub.len() - 4,
        ),
        npub.len() <= 16 ==> community_cmds::shortened(npub) == npub,
        community_cmds::shortens(npub),
{
    text::lemma_ascii_bytes(npub, npub.len() as int);
    if npub.len() > 16 {
        text::lemma_ascii_bytes(npub, 8);
        text::lemma_ascii_bytes(npub, npub.len() - 4);
    }
}

/// A command without an argument is about its sender, and one with an npub about that user.
pub proof fn law_who_is_asked_about(sender: Seq<char>, npub: Seq<char>, blank: Seq<char>)
    requires
        moderation_laws::names_member(npub),
        text::trimmed(blank).len() == 0,
    ensures
        community_cmds::target_of(blank, sender) == sender,
        community_cmds::target_of(npub, sender) == npub,
        community_cmds::target_of("nostr:"@ + npub, sender) == npub,
{
    reveal_strlit("nostr:");
    let none = Seq::<char>::empty();
    assert(npub.take(5)[0] == 'n' && npub.take(5)[1] == 'p');
    assert(npub[0] == 'n' && npub[1] == 'p');
    if "nostr:"@.is_prefix_of(npub) {
        assert(npub.subrange(0, 6)[1] == 'o');
    }
    handlers::engagement_laws::law_npub_is_meant(none, npub, none);
    assert(none + npub + none =~= npub);
    let link = "nostr:"@ + npub;
    assert(none + link + none =~= link);
    assert(npub[npub.len() - 1] == npub.last());
    assert(link[0] == 'n' && link.last() == npub.last());
    text::lemma_trim_around(none, npub, none);
    text::lemma_trim_around(none, link, none);
}

/// What is missing to the next level is what is missing to its points.
#[verifier::rlimit(30)]
pub proof fn law_next_level_is_told(display: Seq<char>, level: int, xp: int)
    requires
        level >= 0,
    ensures
        text::has_substring(
            community_cmds::level_text(display, level, xp),
            "Level "@ + number::signed_decimal(level) + "\n"@,
        ),
        text::has_substring(
            community_cmds::level_text(display, level, xp),
            "Next level in "@ + number::signed_decimal(community::total_xp(level + 1) - xp) + " XP"@,
        ),
{
    let total = community::total_xp(level);
    let step = community::step_xp(level + 1);
    assert(community::total_xp(level + 1) == total + step);
    let l = number::signed_decimal(level);
    let have = number::signed_decimal(xp - total);
    let need = number::signed_decimal(step);
    let left = number::signed_decimal(step - (xp - total));
    assert(step - (xp - total) == community::total_xp(level + 1) - xp);
    let whole = community_cmds::level_text(display, level, xp);
    let none = Seq::<char>::empty();
    reveal_strlit(" Level ");
    reveal_strlit("Level ");
    reveal_strlit("\n📈 ");
    reveal_strlit("\n");
    reveal_strlit(" XP\n🎯 Next level in ");
    reveal_strlit("Next level in ");
    let t = " XP\n🎯 Next level in "@;
    let u = "\n📈 "@;
    assert(" Level "@ =~= seq![' '] + "Level "@);
    assert(u =~= "\n"@ + u.skip(1));
    assert(t =~= t.take(6) + "Next level in "@);
    let p = "Level "@ + l + "\n"@;
    let tail = u.skip(1) + have + " / "@ + need + t + left + " XP"@;
    let head = "📊 "@ + display + seq![' '];
    assert(whole =~= head + p + tail);
    text::lemma_substring_between(head, p, tail);
    let q = "Next level in "@ + left + " XP"@;
    let start = "📊 "@ + display + " Level "@ + l + u + have + " / "@ + need + t.take(6);
    assert(whole =~= start + q + none);
    text::lemma_substring_between(start, q, none);
}

/// The leaderboard lists every row it is given, in order: the first three with medals and the others
/// with their place.
pub proof fn law_leaders_are_listed(rows: Seq<(Seq<char>, i64, i64)>, i: int)
    requires
        0 <= i < rows.len(),
    ensures
        text::has_substring(
            community_cmds::leaderboard_text(rows),
            (if i == 0 {
                "🥇"@
            } else if i == 1 {
                "🥈"@
            } else if i == 2 {
                "🥉"@
            } else {
                number::decimal((i + 1) as nat) + "."@
            }) + " nostr:"@ + rows[i].0 + " — Level "@ + number::signed_decimal(rows[i].1 as int)
                + " ("@ + number::signed_decimal(rows[i].2 as int) + " XP)"@,
        ),
{
    let lines = seq!["🏆 **Leaderboard**"@] + community_cmds::leader_lines(rows);
    assert(lines[1 + i] == community_cmds::leader_line(i, rows[i]));
    text::lemma_joined_holds(lines, "\n"@, 1 + i);
}

/// A rank is one more than how many users have more points.
pub proof fn law_rank_is_told(db: CommunityView, npub: Seq<char>)
    requires
        db.users.dom().contains(npub),
        community::fits((community::ahead(db.users, db.users[npub].xp) + 1) as int),
    ensures
        community_cmds::rank_text(db, npub) == "#"@ + number::decimal(
            community::ahead(db.users, db.users[npub].xp) + 1,
        ),
{
}

proof fn lemma_shown_within(head: Seq<char>, p: Seq<char>, tail: Seq<char>, whole: Seq<char>)
    requires
        whole =~= head + p + tail,
    ensures
        text::has_substring(whole, p),
{
    text::lemma_substring_between(head, p, tail);
}

/// A profile tells the level, the points, the sats that were tipped and zapped together, the messages
/// and the reputation.
pub proof fn law_profile_tells_what_is_known(
    npub: Seq<char>,
    u: community::UserRow,
    rank: Seq<char>,
)
    ensures
        ({
            let shown = community_cmds::profile_text(npub, u, rank);
            &&& text::has_substring(
                shown,
                "\n📊 Level "@ + number::signed_decimal(u.level as int) + " · "@
                    + number::signed_decimal(u.xp as int) + " XP\n📈 "@ + rank,
            )
            &&& text::has_substring(
                shown,
                number::signed_decimal(u.sats_tipped + u.sats_zapped) + " sats tipped/zapped\n💬 "@
                    + number::signed_decimal(u.messages_sent as int) + " messages\n🎯 Member since "@,
            )
            &&& text::has_substring(
                shown,
                "\n⭐ Reputation: "@ + number::signed_decimal(u.rep as int),
            )
        }),
{
    let shown = community_cmds::profile_text(npub, u, rank);
    let name = "👤 "@ + community_cmds::shortened(npub);
    let p = "\n📊 Level "@ + number::signed_decimal(u.level as int) + " · "@ + number::signed_decimal(
        u.xp as int,
    ) + " XP\n📈 "@ + rank;
    let gap = " on leaderboard\n⚡ "@;
    let q = number::signed_decimal(u.sats_tipped + u.sats_zapped) + " sats tipped/zapped\n💬 "@
        + number::signed_decimal(u.messages_sent as int) + " messages\n🎯 Member since "@;
    let since = community_cmds::member_since(u.first_seen);
    let r = "\n⭐ Reputation: "@ + number::signed_decimal(u.rep as int);
    assert(shown =~= name + p + gap + q + since + r);
    lemma_shown_within(name, p, gap + q + since + r, shown);
    lemma_shown_within(name + p + gap, q, since + r, shown);
    lemma_shown_within(name + p + gap + q + since, r, Seq::empty(), shown);
}

/// Every giveaway that ends is told of, with its prize and its winner.
#[verifier::rlimit(30)]
pub proof fn law_every_ending_is_told(all: Seq<DrawnView>, i: int)
    requires
        0 <= i < all.len(),
        forall|k: int| 0 <= k < all.len() ==> community_cmds::readable(#[trigger] all[k]),
    ensures
        community_cmds::end_text(all) matches Some(t) && text::has_substring(
            t,
            "Prize: "@ + all[i].prize,
        ) && (all[i].winner matches Some(w) ==> text::has_substring(
            t,
            "Winner: "@ + community_cmds::shortened(w),
        )),
        community_cmds::end_text(Seq::empty()) is Some,
{
    let lines = community_cmds::result_lines(all);
    let t = community_cmds::end_text(all)->0;
    let line = lines[i];
    let none = Seq::<char>::empty();
    let prize = "Prize: "@ + all[i].prize;
    text::lemma_joined_holds(lines, "\n"@, i);
    reveal_strlit("Prize: ");
    reveal_strlit("\n🎁 Prize: ");
    reveal_strlit("🎉 Giveaway ended!\n🎁 Prize: ");
    reveal_strlit("Winner: ");
    reveal_strlit("\n🏆 Winner: ");
    let a = "🎉 Giveaway ended!\n🎁 Prize: "@;
    let b = "\n🏆 Winner: "@;
    let c = "\n🎁 Prize: "@;
    assert(a =~= a.take(a.len() - 7) + "Prize: "@);
    assert(b =~= b.take(3) + "Winner: "@);
    assert(c =~= c.take(3) + "Prize: "@);
    match all[i].winner {
        Some(w) => {
            let who = community_cmds::shortened(w);
            assert(line =~= a.take(a.len() - 7) + prize + (b + who));
            text::lemma_substring_between(a.take(a.len() - 7), prize, b + who);
            assert(line =~= (a + all[i].prize + b.take(3)) + ("Winner: "@ + who) + none);
            text::lemma_substring_between(a + all[i].prize + b.take(3), "Winner: "@ + who, none);
            text::lemma_substring_of_part(t, line, "Winner: "@ + who);
        },
        None => {
            let said = "🎉 Giveaway ended — no entries."@;
            assert(line =~= (said + c.take(3)) + prize + none);
            text::lemma_substring_between(said + c.take(3), prize, none);
        },
    }
    text::lemma_substring_of_part(t, line, prize);
}

/// A giveaway is listed with its prize, how many entered and when it ends.
pub proof fn law_giveaways_are_listed(g: GiveawayView, entries: Seq<EntryView>, now: i64)
    ensures
        text::has_substring(community_cmds::giveaway_line(g, entries, now), g.prize),
        text::has_substring(
            community_cmds::giveaway_line(g, entries, now),
            number::decimal(community::entrants(entries, g.id).len()) + " entries, ends in "@
                + community_cmds::ends_in(g.ends_at, now),
        ),
{
    let n = number::decimal(community::entrants(entries, g.id).len());
    let place = community_cmds::shortened(g.channel_id);
    let left = community_cmds::ends_in(g.ends_at, now);
    let line = community_cmds::giveaway_line(g, entries, now);
    let rest = " — "@ + place + " ("@ + n + " entries, ends in "@ + left + ")"@;
    assert(line =~= "  • "@ + g.prize + rest);
    text::lemma_substring_between("  • "@, g.prize, rest);
    let p = n + " entries, ends in "@ + left;
    let head = "  • "@ + g.prize + " — "@ + place + " ("@;
    assert(line =~= head + p + ")"@);
    text::lemma_substring_between(head, p, ")"@);
}

/// What can be done is not refused: ending, listing and starting a giveaway.
pub proof fn law_good_requests_are_not_refused(req: RequestView)
    ensures
        community_cmds::refusal(req) is None <==> req is End || req is List || req is Start,
{
}

/// The owner is told of every removal of the bot from a community, and nobody where there is none.
pub proof fn law_owner_hears_of_removal(a: AuthView, community: Seq<char>)
    ensures
        a.owner.len() > 0 ==> (handlers::removal_notice(Some(a), community) matches Some(
            OutgoingView::Dm(to, what),
        ) && to == a.owner && text::has_substring(what, community)),
        a.owner.len() == 0 ==> handlers::removal_notice(Some(a), community) is None,
        handlers::removal_notice(None, community) is None,
{
    let none = Seq::<char>::empty();
    text::lemma_substring_between("⚠️ I was removed from community "@, community, none);
    assert("⚠️ I was removed from community "@ + community + none
        =~= "⚠️ I was removed from community "@ + community);
}

} // verus!
