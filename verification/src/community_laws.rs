//! What holds of experience, reputation, giveaways and channels as a whole.

use vstd::prelude::*;
use crate::community;
use crate::community::{
    ChannelView, CommunityView, EntryView, GiveawayView, RepView, UserRow, XpEntryView,
};

verus! {

// ---------------------------------------------------------------------------
// Levels
// ---------------------------------------------------------------------------

/// The experience up to a level in closed form, and what each level adds to the one before.
pub proof fn law_level_curve(n: int)
    requires
        n >= 1,
    ensures
        community::total_xp(0) == 0,
        community::total_xp(n) - community::total_xp(n - 1) == 5 * (n * n) + 50 * n + 100,
        community::step_xp(n) == 5 * (n * n) + 50 * n + 100,
        6 * community::total_xp(n) == 5 * (n * (n + 1) * (2 * n + 1)) + 150 * (n * (n + 1)) + 600
            * n,
    decreases n,
{
    assert(5 * n * n == 5 * (n * n)) by (nonlinear_arith);
    if n > 1 {
        law_level_curve(n - 1);
        let m = n - 1;
        assert(5 * (m * (m + 1) * (2 * m + 1)) + 150 * (m * (m + 1)) + 600 * m + 6 * (5 * (n * n)
            + 50 * n + 100) == 5 * (n * (n + 1) * (2 * n + 1)) + 150 * (n * (n + 1)) + 600 * n)
            by (nonlinear_arith)
            requires
                m == n - 1,
        ;
    } else {
        assert(community::total_xp(0) == 0);
        assert(community::total_xp(1) == community::step_xp(1));
        assert(n * (n + 1) * (2 * n + 1) == 6 && n * (n + 1) == 2) by (nonlinear_arith)
            requires
                n == 1,
        ;
    }
}

/// A user is at the level whose experience they have and whose successor's they lack.
pub proof fn law_level_is_reached(xp: int, n: int)
    requires
        0 <= n < 1001,
        xp >= 0,
    ensures
        community::level_of(xp) == n <==> community::total_xp(n) <= xp < community::total_xp(n + 1),
{
    community::law_level_brackets_xp(xp);
    let l = community::level_of(xp);
    if l < n {
        community::lemma_total_grows(l + 1, n);
    }
    if l > n {
        community::lemma_total_grows(n + 1, l);
    }
}

/// An award adds to the experience of one user what was awarded, sets their level by it, starts
/// their cooldown and is logged once; nothing else changes.
pub proof fn law_award_adds_up(
    db: CommunityView,
    npub: Seq<char>,
    amount: i64,
    channel: Seq<char>,
    now: i64,
    other: Seq<char>,
)
    requires
        community::fits(db.user(npub, now).xp + amount),
    ensures
        ({
            let before = db.user(npub, now);
            let after = db.with_award(npub, amount, channel, now);
            let row = after.users[npub];
            &&& after.users.dom().contains(npub)
            &&& row.xp == before.xp + amount
            &&& row.level == community::level_of(before.xp + amount)
            &&& row.last_xp_at == now
            &&& row.rep == before.rep && row.messages_sent == before.messages_sent
                && row.sats_tipped == before.sats_tipped && row.sats_zapped == before.sats_zapped
                && row.first_seen == before.first_seen
            &&& other != npub ==> after.user(other, now) == db.user(other, now)
            &&& after.xp_log.len() == db.xp_log.len() + 1 && after.xp_log.drop_last() == db.xp_log
            &&& after.xp_log.last() == (XpEntryView {
                npub,
                amount,
                timestamp: now,
                channel_id: channel,
            })
            &&& after.giveaways == db.giveaways && after.entries == db.entries && after.reputation
                == db.reputation && after.channels == db.channels
        }),
{
    community::law_level_brackets_xp(db.user(npub, now).xp + amount);
}

/// Two awards add up to one of their sum.
pub proof fn law_awards_are_additive(
    db: CommunityView,
    npub: Seq<char>,
    a: i64,
    b: i64,
    channel: Seq<char>,
    now: i64,
)
    requires
        community::fits(db.user(npub, now).xp + a),
        community::fits(a + b),
        community::fits(db.user(npub, now).xp + a + b),
    ensures
        db.with_award(npub, a, channel, now).with_award(npub, b, channel, now).users
            == db.with_award(npub, (a + b) as i64, channel, now).users,
{
    let once = db.with_award(npub, a, channel, now);
    assert(once.with_award(npub, b, channel, now).users =~= db.with_award(
        npub,
        (a + b) as i64,
        channel,
        now,
    ).users);
}

/// A user whom nobody has seen has nothing yet.
pub proof fn law_newcomers_have_nothing(db: CommunityView, npub: Seq<char>, now: i64)
    requires
        !db.users.dom().contains(npub),
    ensures
        ({
            let u = db.user(npub, now);
            u.xp == 0 && u.level == 0 && u.rep == 0 && u.messages_sent == 0 && u.sats_tipped == 0
                && u.sats_zapped == 0 && u.first_seen == now
        }),
        !db.on_cooldown(npub, 60, now),
{
}

/// A cooldown lasts its seconds from the last award on, and no longer.
pub proof fn law_cooldown_lasts(db: CommunityView, npub: Seq<char>, cooldown: i64, now: i64)
    ensures
        db.on_cooldown(npub, cooldown, now) <==> db.users.dom().contains(npub) && now
            < db.users[npub].last_xp_at + cooldown,
{
}

// ---------------------------------------------------------------------------
// Ranks
// ---------------------------------------------------------------------------

/// Whoever has more experience has the better rank, whoever has as much has the same, and nobody is
/// ahead of whoever has the most.
pub proof fn law_rank_follows_xp(users: Map<Seq<char>, UserRow>, a: Seq<char>, b: Seq<char>)
    requires
        users.dom().finite(),
        users.dom().contains(a),
        users.dom().contains(b),
    ensures
        users[a].xp > users[b].xp ==> community::ahead(users, users[a].xp) < community::ahead(
            users,
            users[b].xp,
        ),
        users[a].xp == users[b].xp ==> community::ahead(users, users[a].xp) == community::ahead(
            users,
            users[b].xp,
        ),
        (forall|n: Seq<char>| #[trigger] users.dom().contains(n) ==> users[n].xp <= users[a].xp)
            ==> community::ahead(users, users[a].xp) == 0,
        forall|n: Seq<char>| #[trigger]
            community::those_ahead(users, users[a].xp).contains(n) <==> users.dom().contains(n)
                && users[n].xp > users[a].xp,
{
    let sa = community::those_ahead(users, users[a].xp);
    let sb = community::those_ahead(users, users[b].xp);
    assert(sa.subset_of(users.dom()));
    assert(sb.subset_of(users.dom()));
    vstd::set_lib::lemma_len_subset(sa, users.dom());
    vstd::set_lib::lemma_len_subset(sb, users.dom());
    if users[a].xp > users[b].xp {
        assert(sb.contains(a) && !sa.contains(a));
        assert(sa.insert(a).subset_of(sb));
        vstd::set_lib::lemma_len_subset(sa.insert(a), sb);
    }
    if forall|n: Seq<char>| #[trigger] users.dom().contains(n) ==> users[n].xp <= users[a].xp {
        assert(sa =~= Set::empty());
    }
}

/// A leaderboard has the users with the most experience, the best first and nobody twice.
pub proof fn law_leaderboard_has_the_best(
    list: Seq<(Seq<char>, i64, i64)>,
    users: Map<Seq<char>, UserRow>,
    i: int,
    j: int,
    other: Seq<char>,
)
    requires
        community::ranks_users(list, users),
        0 <= i < j < list.len(),
        users.dom().contains(other),
        forall|k: int| 0 <= k < list.len() ==> (#[trigger] list[k]).0 != other,
    ensures
        list[i].2 >= list[j].2,
        list[i].0 != list[j].0,
        users[list[i].0].xp == list[i].2,
        users[list[i].0].level == list[i].1,
        users[other].xp <= list[j].2,
{
}

// ---------------------------------------------------------------------------
// Reputation
// ---------------------------------------------------------------------------

/// Between the same two users reputation is given at most once in twenty-four hours, and again from
/// the end of the last of them on.
pub proof fn law_reputation_waits_a_day(
    db: CommunityView,
    from: Seq<char>,
    to: Seq<char>,
    now: i64,
    later: i64,
)
    ensures
        (CommunityView { reputation: community::rep_given(db.reputation, from, to, now), ..db })
            .rep_on_cooldown(from, to, later) <==> later < now + 24 * 60 * 60,
        (forall|i: int|
            0 <= i < db.reputation.len() ==> (#[trigger] db.reputation[i]).from != from
                || db.reputation[i].to != to) ==> !db.rep_on_cooldown(from, to, later),
{
    let other = from.push('x');
    assert(other.len() != from.len());
    community::law_reputation_once_a_day(db, from, to, now, later, other, to);
    if forall|i: int|
        0 <= i < db.reputation.len() ==> (#[trigger] db.reputation[i]).from != from
            || db.reputation[i].to != to {
        lemma_no_rep(db.reputation, from, to);
    }
}

proof fn lemma_no_rep(rows: Seq<RepView>, from: Seq<char>, to: Seq<char>)
    requires
        forall|i: int|
            0 <= i < rows.len() ==> (#[trigger] rows[i]).from != from || rows[i].to != to,
    ensures
        community::last_rep(rows, from, to) is None,
    decreases rows.len(),
{
    if rows.len() > 0 {
        let init = rows.drop_last();
        assert(rows[rows.len() - 1] == rows.last());
        assert forall|i: int| 0 <= i < init.len() implies (#[trigger] init[i]).from != from
            || init[i].to != to by {
            assert(init[i] == rows[i]);
        }
        lemma_no_rep(init, from, to);
    }
}

// ---------------------------------------------------------------------------
// Giveaways
// ---------------------------------------------------------------------------

/// Every entry to a giveaway has a chance, in the order of entering, and an entry to another one
/// has none.
pub proof fn law_every_entry_counts(rows: Seq<EntryView>, e: EntryView, id: Seq<char>)
    ensures
        community::entrants(Seq::empty(), id).len() == 0,
        e.giveaway_id == id ==> community::entrants(rows.push(e), id) == community::entrants(
            rows,
            id,
        ).push(e.npub),
        e.giveaway_id != id ==> community::entrants(rows.push(e), id) == community::entrants(
            rows,
            id,
        ),
{
    assert(rows.push(e).drop_last() =~= rows);
}

/// A giveaway runs from when it is opened to when it is closed, in its own channel, behind those
/// that were opened before.
pub proof fn law_open_giveaways_run(
    ids: Seq<Seq<char>>,
    giveaways: Map<Seq<char>, GiveawayView>,
    id: Seq<char>,
    g: GiveawayView,
    channel: Option<Seq<char>>,
)
    requires
        !ids.contains(id),
    ensures
        ({
            let before = community::running(ids, giveaways, channel);
            let after = community::running(ids.push(id), giveaways.insert(id, g), channel);
            &&& g.active && (channel is None || channel->0 == g.channel_id) ==> after
                == before.push(g)
            &&& !g.active || (channel is Some && channel->0 != g.channel_id) ==> after == before
        }),
        community::running(Seq::empty(), giveaways, channel).len() == 0,
{
    let all = ids.push(id);
    assert(all.drop_last() =~= ids);
    lemma_running_elsewhere(ids, giveaways, id, g, channel);
}

proof fn lemma_running_elsewhere(
    ids: Seq<Seq<char>>,
    giveaways: Map<Seq<char>, GiveawayView>,
    id: Seq<char>,
    g: GiveawayView,
    channel: Option<Seq<char>>,
)
    requires
        !ids.contains(id),
    ensures
        community::running(ids, giveaways.insert(id, g), channel) == community::running(
            ids,
            giveaways,
            channel,
        ),
    decreases ids.len(),
{
    if ids.len() > 0 {
        let init = ids.drop_last();
        assert(ids[ids.len() - 1] == ids.last());
        if init.contains(id) {
            let k = choose|k: int| 0 <= k < init.len() && init[k] == id;
            assert(ids[k] == id);
        }
        lemma_running_elsewhere(init, giveaways, id, g, channel);
    }
}

/// Every giveaway that is listed as running is open and in the channel that was asked for.
pub proof fn law_running_means_open(
    ids: Seq<Seq<char>>,
    giveaways: Map<Seq<char>, GiveawayView>,
    channel: Option<Seq<char>>,
    i: int,
)
    requires
        0 <= i < community::running(ids, giveaways, channel).len(),
    ensures
        community::running(ids, giveaways, channel)[i].active,
        channel is Some ==> community::running(ids, giveaways, channel)[i].channel_id == channel->0,
    decreases ids.len(),
{
    let before = community::running(ids.drop_last(), giveaways, channel);
    if i < before.len() {
        law_running_means_open(ids.drop_last(), giveaways, channel, i);
    }
}

// ---------------------------------------------------------------------------
// Channels
// ---------------------------------------------------------------------------

/// A channel that nobody switched on is off.
pub proof fn law_channels_start_off(db: CommunityView, channel: Seq<char>, row: ChannelView)
    ensures
        !db.channels.dom().contains(channel) ==> !db.enabled(channel),
        db.with_channel(channel, row).enabled(channel) <==> row.enabled,
        db.with_channel(channel, row).channels[channel] == row,
{
}

} // verus!
