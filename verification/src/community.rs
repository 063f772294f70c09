//! Community engagement: experience and levels, giveaways, reputation, and in which channels the
//! bot is switched on.
//!
//! Times are Unix seconds.

use vstd::prelude::*;
use crate::chance;
use crate::table::Table;
use crate::{order, table, text};

verus! {

// ---------------------------------------------------------------------------
// Levels
// ---------------------------------------------------------------------------

/// Experience that takes a user from `level - 1` to `level`.
pub open spec fn step_xp(level: int) -> int {
    5 * level * level + 50 * level + 100
}

/// Experience that takes a user from nothing to `level`.
pub open spec fn total_xp(level: int) -> int
    decreases level,
{
    if level <= 0 {
        0
    } else {
        total_xp(level - 1) + step_xp(level)
    }
}

/// The highest level that anyone reaches.
pub const MAX_LEVEL: i64 = 1001;

/// The first level from `level` on whose successor takes more than `xp`.
pub open spec fn climb(xp: int, level: int) -> int
    decreases MAX_LEVEL - level,
{
    if level >= MAX_LEVEL || xp < total_xp(level + 1) {
        level
    } else {
        climb(xp, level + 1)
    }
}

/// The level of a user with `xp` experience.
pub open spec fn level_of(xp: int) -> int {
    climb(xp, 0)
}

/// Experience that takes a user from `level - 1` to `level`.
pub fn xp_for_level(level: i64) -> (r: i64)
    requires
        i64::MIN <= 5 * level * level <= i64::MAX,
        i64::MIN <= step_xp(level as int) <= i64::MAX,
    ensures
        r == step_xp(level as int),
{
    proof {
        let n = level as int;
        assert(-1_400_000_000 <= n <= 1_400_000_000) by (nonlinear_arith)
            requires
                5 * n * n <= i64::MAX,
        ;
        assert(5 * n * n + 50 * n >= -125) by (nonlinear_arith);
    }
    5 * level * level + 50 * level + 100
}

/// The experience of levels grows with them.
pub proof fn lemma_total_grows(a: int, b: int)
    requires
        a <= b,
    ensures
        0 <= total_xp(a) <= total_xp(b),
        0 < a < b ==> total_xp(a) + 155 <= total_xp(b),
    decreases b,
{
    if b > 0 {
        assert(step_xp(b) >= 155) by (nonlinear_arith)
            requires
                b >= 1,
        ;
        if a < b {
            lemma_total_grows(a, b - 1);
        } else if a > 0 {
            lemma_total_grows(a - 1, a - 1);
        }
    }
}

/// How large the experience of a level can get.
pub proof fn lemma_total_bound(level: int)
    requires
        0 <= level <= 1002,
    ensures
        total_xp(level) <= 6_000_000 * level,
        0 <= step_xp(level) <= 6_000_000,
        5 * level * level <= 6_000_000,
    decreases level,
{
    assert(0 <= 5 * level * level + 50 * level + 100 <= 6_000_000 && 5 * level * level
        <= 6_000_000) by (nonlinear_arith)
        requires
            0 <= level <= 1002,
    ;
    if level > 0 {
        lemma_total_bound(level - 1);
    }
}

/// The level of a user with so much experience.
pub fn level_for_xp(total: i64) -> (r: i64)
    ensures
        r == level_of(total as int),
        0 <= r <= MAX_LEVEL,
{
    let mut level: i64 = 0;
    let mut required: i64 = 0;
    while level < MAX_LEVEL
        invariant
            0 <= level <= MAX_LEVEL,
            required == total_xp(level as int),
            0 <= required <= 6_000_000 * level,
            level_of(total as int) == climb(total as int, level as int),
        decreases MAX_LEVEL - level,
    {
        proof {
            lemma_total_bound(level + 1);
        }
        let next: i64 = xp_for_level(level + 1);
        if total < required + next {
            return level;
        }
        required = required + next;
        level = level + 1;
    }
    level
}

/// Experience that takes a user from nothing to `level`.
pub fn cumulative_xp_for_level(level: i64) -> (r: i64)
    requires
        total_xp(level as int) <= i64::MAX,
    ensures
        r == total_xp(level as int),
{
    let mut total: i64 = 0;
    let mut n: i64 = 0;
    while n < level
        invariant
            n <= level || n == 0,
            0 <= n,
            total == total_xp(n as int),
            total_xp(level as int) <= i64::MAX,
        decreases level - n,
    {
        proof {
            lemma_total_grows(n + 1, level as int);
            lemma_total_grows(n as int, n as int);
            let m = n + 1;
            assert(0 <= 5 * m * m <= step_xp(m)) by (nonlinear_arith)
                requires
                    m >= 1,
                    step_xp(m) == 5 * m * m + 50 * m + 100,
            ;
        }
        total = total + xp_for_level(n + 1);
        n = n + 1;
    }
    proof {
        if level <= 0 {
            assert(total_xp(level as int) == 0);
        }
    }
    total
}

/// Experience that takes a user from `level - 1` to `level`, where it fits.
pub fn try_xp_for_level(level: i128) -> (r: Option<i64>)
    requires
        i64::MIN <= level <= i64::MAX + 1,
    ensures
        match r {
            Some(n) => n == step_xp(level as int),
            None => !fits(step_xp(level as int)),
        },
{
    let ghost n = level as int;
    if level < -1_400_000_000 || level > 1_400_000_000 {
        proof {
            assert(5 * n * n + 50 * n + 100 > i64::MAX) by (nonlinear_arith)
                requires
                    n < -1_400_000_000 || n > 1_400_000_000,
            ;
        }
        return None;
    }
    proof {
        assert(-125 <= 5 * n * n + 50 * n && 0 <= 5 * n * n <= 9_800_000_000_000_000_000 && -7_000_000_000
            <= 5 * n <= 7_000_000_000) by (nonlinear_arith)
            requires
                -1_400_000_000 <= n <= 1_400_000_000,
        ;
    }
    let xp: i128 = 5 * level * level + 50 * level + 100;
    if xp > 0x7fff_ffff_ffff_ffff {
        None
    } else {
        Some(xp as i64)
    }
}

/// Experience that takes a user from nothing to `level`, where it fits.
pub fn try_cumulative_xp(level: i64) -> (r: Option<i64>)
    ensures
        match r {
            Some(n) => n == total_xp(level as int),
            None => !fits(total_xp(level as int)),
        },
{
    let mut total: i64 = 0;
    let mut n: i64 = 0;
    while n < level
        invariant
            n <= level || n == 0,
            0 <= n,
            total == total_xp(n as int),
            0 <= total,
        decreases level - n,
    {
        proof {
            lemma_total_grows(n + 1, level as int);
            lemma_total_grows(n as int, n + 1);
        }
        let more: i64 = match try_xp_for_level(n as i128 + 1) {
            Some(xp) => xp,
            None => {
                return None;
            },
        };
        total = match total.checked_add(more) {
            Some(t) => t,
            None => {
                return None;
            },
        };
        n = n + 1;
    }
    proof {
        if level <= 0 {
            assert(total_xp(level as int) == 0);
        }
    }
    Some(total)
}

/// Experience beyond what `level` took.
pub fn xp_in_current_level(total: i64, level: i64) -> (r: i64)
    requires
        total_xp(level as int) <= i64::MAX,
        i64::MIN <= total - total_xp(level as int),
    ensures
        r == total - total_xp(level as int),
{
    proof {
        lemma_total_grows(level as int, level as int);
    }
    total - cumulative_xp_for_level(level)
}

/// A level is reached exactly when the experience it takes is there, up to the highest level.
pub proof fn law_level_brackets_xp(xp: int)
    ensures
        0 <= level_of(xp) <= MAX_LEVEL,
        level_of(xp) > 0 ==> total_xp(level_of(xp)) <= xp,
        level_of(xp) < MAX_LEVEL ==> xp < total_xp(level_of(xp) + 1),
{
    lemma_climb(xp, 0);
}

proof fn lemma_climb(xp: int, level: int)
    requires
        0 <= level <= MAX_LEVEL,
        level > 0 ==> total_xp(level) <= xp,
    ensures
        level <= climb(xp, level) <= MAX_LEVEL,
        climb(xp, level) > 0 ==> total_xp(climb(xp, level)) <= xp,
        climb(xp, level) < MAX_LEVEL ==> xp < total_xp(climb(xp, level) + 1),
    decreases MAX_LEVEL - level,
{
    if !(level >= MAX_LEVEL || xp < total_xp(level + 1)) {
        lemma_climb(xp, level + 1);
    }
}

/// More experience never means a lower level.
pub proof fn law_level_grows_with_xp(a: int, b: int)
    requires
        a <= b,
    ensures
        level_of(a) <= level_of(b),
{
    law_level_brackets_xp(a);
    law_level_brackets_xp(b);
    if level_of(a) > level_of(b) {
        lemma_total_grows(level_of(b) + 1, level_of(a));
    }
}

// ---------------------------------------------------------------------------
// Rows
// ---------------------------------------------------------------------------

/// A user's community stats.
pub struct UserStats {
    pub npub: String,
    pub xp: i64,
    pub level: i64,
    pub messages_sent: i64,
    pub sats_tipped: i64,
    pub sats_zapped: i64,
    pub first_seen: i64,
    pub last_xp_at: i64,
    pub rep: i64,
}

/// What is stored of a user under their npub.
#[derive(Debug, Clone, Copy, PartialEq, Eq, Structural)]
pub struct UserRow {
    pub xp: i64,
    pub level: i64,
    pub messages_sent: i64,
    pub sats_tipped: i64,
    pub sats_zapped: i64,
    pub first_seen: i64,
    pub last_xp_at: i64,
    pub rep: i64,
}

impl View for UserRow {
    type V = UserRow;

    open spec fn view(&self) -> UserRow {
        *self
    }
}

/// A giveaway.
pub struct Giveaway {
    pub id: String,
    pub channel_id: String,
    pub prize: String,
    pub prize_sats: i64,
    pub starts_at: i64,
    pub ends_at: i64,
    pub active: bool,
    pub winner_npub: Option<String>,
}

/// What a giveaway says.
#[verifier::ext_equal]
pub struct GiveawayView {
    pub id: Seq<char>,
    pub channel_id: Seq<char>,
    pub prize: Seq<char>,
    pub prize_sats: i64,
    pub starts_at: i64,
    pub ends_at: i64,
    pub active: bool,
    pub winner_npub: Option<Seq<char>>,
}

impl View for Giveaway {
    type V = GiveawayView;

    open spec fn view(&self) -> GiveawayView {
        GiveawayView {
            id: self.id@,
            channel_id: self.channel_id@,
            prize: self.prize@,
            prize_sats: self.prize_sats,
            starts_at: self.starts_at,
            ends_at: self.ends_at,
            active: self.active,
            winner_npub: text::opt_view(self.winner_npub),
        }
    }
}

impl Giveaway {
    /// A copy.
    pub fn copy(&self) -> (r: Giveaway)
        ensures
            r@ == self@,
    {
        Giveaway {
            id: self.id.clone(),
            channel_id: self.channel_id.clone(),
            prize: self.prize.clone(),
            prize_sats: self.prize_sats,
            starts_at: self.starts_at,
            ends_at: self.ends_at,
            active: self.active,
            winner_npub: text::copy_opt(&self.winner_npub),
        }
    }
}

/// One award of experience.
pub struct XpEntry {
    pub npub: String,
    pub amount: i64,
    pub timestamp: i64,
    pub channel_id: String,
}

/// What an award says.
pub struct XpEntryView {
    pub npub: Seq<char>,
    pub amount: i64,
    pub timestamp: i64,
    pub channel_id: Seq<char>,
}

impl View for XpEntry {
    type V = XpEntryView;

    open spec fn view(&self) -> XpEntryView {
        XpEntryView {
            npub: self.npub@,
            amount: self.amount,
            timestamp: self.timestamp,
            channel_id: self.channel_id@,
        }
    }
}

/// One entry into a giveaway.
pub struct Entry {
    pub giveaway_id: String,
    pub npub: String,
    pub entered_at: i64,
}

/// What an entry says.
pub struct EntryView {
    pub giveaway_id: Seq<char>,
    pub npub: Seq<char>,
    pub entered_at: i64,
}

impl View for Entry {
    type V = EntryView;

    open spec fn view(&self) -> EntryView {
        EntryView {
            giveaway_id: self.giveaway_id@,
            npub: self.npub@,
            entered_at: self.entered_at,
        }
    }
}

/// When one user last gave another reputation.
pub struct RepRow {
    pub from: String,
    pub to: String,
    pub timestamp: i64,
}

/// What a reputation row says.
pub struct RepView {
    pub from: Seq<char>,
    pub to: Seq<char>,
    pub timestamp: i64,
}

impl View for RepRow {
    type V = RepView;

    open spec fn view(&self) -> RepView {
        RepView { from: self.from@, to: self.to@, timestamp: self.timestamp }
    }
}

/// Whether the bot is switched on in a channel, since when and by whom.
pub struct ChannelRow {
    pub enabled: bool,
    pub updated_at: i64,
    pub updated_by: String,
}

/// What a channel row says.
pub struct ChannelView {
    pub enabled: bool,
    pub updated_at: i64,
    pub updated_by: Seq<char>,
}

impl View for ChannelRow {
    type V = ChannelView;

    open spec fn view(&self) -> ChannelView {
        ChannelView {
            enabled: self.enabled,
            updated_at: self.updated_at,
            updated_by: self.updated_by@,
        }
    }
}

/// The views of a list of rows.
pub open spec fn row_views<T: View>(rows: Seq<T>) -> Seq<T::V> {
    rows.map_values(|r: T| r@)
}

// ---------------------------------------------------------------------------
// The tables
// ---------------------------------------------------------------------------

/// Why a change was refused. Nothing is changed then.
#[derive(Debug, Clone, Copy, PartialEq, Eq, Structural)]
pub enum StoreError {
    /// A row with that key is there already.
    Duplicate,
    /// A sum does not fit.
    Overflow,
}

/// What the tables hold.
#[verifier::ext_equal]
pub struct CommunityView {
    pub users: Map<Seq<char>, UserRow>,
    pub xp_log: Seq<XpEntryView>,
    pub giveaways: Map<Seq<char>, GiveawayView>,
    /// The giveaways' keys in the order of their creation.
    pub giveaway_ids: Seq<Seq<char>>,
    pub entries: Seq<EntryView>,
    pub reputation: Seq<RepView>,
    pub channels: Map<Seq<char>, ChannelView>,
}

/// A user first seen at `ts`.
pub open spec fn new_user(ts: i64) -> UserRow {
    UserRow {
        xp: 0,
        level: 0,
        messages_sent: 0,
        sats_tipped: 0,
        sats_zapped: 0,
        first_seen: ts,
        last_xp_at: 0,
        rep: 0,
    }
}

/// Whether a number fits a signed 64-bit integer.
pub open spec fn fits(n: int) -> bool {
    i64::MIN <= n <= i64::MAX
}

/// When `from` last gave `to` reputation.
pub open spec fn last_rep(rows: Seq<RepView>, from: Seq<char>, to: Seq<char>) -> Option<i64>
    decreases rows.len(),
{
    if rows.len() == 0 {
        None
    } else if rows.last().from == from && rows.last().to == to {
        Some(rows.last().timestamp)
    } else {
        last_rep(rows.drop_last(), from, to)
    }
}

/// The rows after `from` gave `to` reputation at `ts`: in the row of the pair where there is one,
/// else in a new one.
pub open spec fn rep_given(rows: Seq<RepView>, from: Seq<char>, to: Seq<char>, ts: i64) -> Seq<
    RepView,
> {
    if last_rep(rows, from, to) is Some {
        rows.map_values(
            |r: RepView|
                if r.from == from && r.to == to {
                    RepView { timestamp: ts, ..r }
                } else {
                    r
                },
        )
    } else {
        rows.push(RepView { from, to, timestamp: ts })
    }
}

/// Seconds before the same user may be given reputation again.
pub const REP_COOLDOWN_SECS: i64 = 86400;

/// Whether less than `cooldown` has passed since `then`.
pub open spec fn within(now: i64, then: i64, cooldown: i64) -> bool {
    now - then < cooldown
}

/// The npubs that entered a giveaway, in the order of entry.
pub open spec fn entrants(rows: Seq<EntryView>, id: Seq<char>) -> Seq<Seq<char>>
    decreases rows.len(),
{
    if rows.len() == 0 {
        Seq::empty()
    } else if rows.last().giveaway_id == id {
        entrants(rows.drop_last(), id).push(rows.last().npub)
    } else {
        entrants(rows.drop_last(), id)
    }
}

/// Whether the list of ids and the giveaways agree: each giveaway is kept under its own id, and
/// the list holds none but ids of giveaways.
pub open spec fn listed_soundly(ids: Seq<Seq<char>>, giveaways: Map<Seq<char>, GiveawayView>) -> bool {
    &&& kept_by_id(giveaways)
    &&& forall|i: int| 0 <= i < ids.len() ==> #[trigger] giveaways.dom().contains(ids[i])
}

/// The running giveaways among `ids`, in one channel or in all.
pub open spec fn running(
    ids: Seq<Seq<char>>,
    giveaways: Map<Seq<char>, GiveawayView>,
    channel: Option<Seq<char>>,
) -> Seq<GiveawayView>
    decreases ids.len(),
{
    if ids.len() == 0 {
        Seq::empty()
    } else {
        let g = giveaways[ids.last()];
        let before = running(ids.drop_last(), giveaways, channel);
        if g.active && (channel is None || channel == Some(g.channel_id)) {
            before.push(g)
        } else {
            before
        }
    }
}

impl CommunityView {
    /// The row of a user, or that of a user first seen now.
    pub open spec fn user(self, npub: Seq<char>, now: i64) -> UserRow {
        if self.users.dom().contains(npub) {
            self.users[npub]
        } else {
            new_user(now)
        }
    }

    /// The tables with the row of a user replaced.
    pub open spec fn with_user(self, npub: Seq<char>, row: UserRow) -> CommunityView {
        CommunityView { users: self.users.insert(npub, row), ..self }
    }

    /// Whether a user got experience less than `cooldown` ago.
    pub open spec fn on_cooldown(self, npub: Seq<char>, cooldown: i64, now: i64) -> bool {
        self.users.dom().contains(npub) && within(now, self.users[npub].last_xp_at, cooldown)
    }

    /// Whether `from` may not yet give `to` reputation again.
    pub open spec fn rep_on_cooldown(self, from: Seq<char>, to: Seq<char>, now: i64) -> bool {
        match last_rep(self.reputation, from, to) {
            Some(t) => within(now, t, REP_COOLDOWN_SECS),
            None => false,
        }
    }

    /// The tables with a channel's state replaced.
    pub open spec fn with_channel(self, channel: Seq<char>, row: ChannelView) -> CommunityView {
        CommunityView { channels: self.channels.insert(channel, row), ..self }
    }

    /// Whether the bot is switched on in a channel. It is off until someone switches it on.
    pub open spec fn enabled(self, channel: Seq<char>) -> bool {
        self.channels.dom().contains(channel) && self.channels[channel].enabled
    }

    /// The tables after a user got experience.
    pub open spec fn with_award(
        self,
        npub: Seq<char>,
        amount: i64,
        channel: Seq<char>,
        now: i64,
    ) -> CommunityView {
        let u = self.user(npub, now);
        let xp = u.xp + amount;
        CommunityView {
            users: self.users.insert(
                npub,
                UserRow {
                    xp: xp as i64,
                    level: level_of(xp) as i64,
                    last_xp_at: now,
                    ..u
                },
            ),
            xp_log: self.xp_log.push(
                XpEntryView { npub, amount, timestamp: now, channel_id: channel },
            ),
            ..self
        }
    }

    /// The tables with a winner set and the giveaway closed; unknown giveaways have no winner.
    pub open spec fn with_winner(self, id: Seq<char>, winner: Seq<char>) -> CommunityView {
        if self.giveaways.dom().contains(id) {
            CommunityView {
                giveaways: self.giveaways.insert(
                    id,
                    GiveawayView {
                        active: false,
                        winner_npub: Some(winner),
                        ..self.giveaways[id]
                    },
                ),
                ..self
            }
        } else {
            self
        }
    }
}

/// A list of users ranks all by experience: every listed row is stored, none is listed twice, the
/// list does not increase, and whoever is missing has no more than anyone listed.
pub open spec fn ranks_users(
    list: Seq<(Seq<char>, i64, i64)>,
    users: Map<Seq<char>, UserRow>,
) -> bool {
    &&& forall|i: int|
        0 <= i < list.len() ==> users.dom().contains((#[trigger] list[i]).0)
            && users[list[i].0].level == list[i].1 && users[list[i].0].xp == list[i].2
    &&& forall|i: int, j: int|
        0 <= i < j < list.len() ==> (#[trigger] list[i]).0 != (#[trigger] list[j]).0 && list[i].2
            >= list[j].2
    &&& forall|u: Seq<char>, j: int|
        users.dom().contains(u) && 0 <= j < list.len() && (forall|i: int|
            0 <= i < list.len() ==> (#[trigger] list[i]).0 != u) ==> #[trigger] users[u].xp <= (
        #[trigger] list[j]).2
}

/// The views of ranked rows.
pub open spec fn ranked_views(v: Seq<(String, i64, i64)>) -> Seq<(Seq<char>, i64, i64)> {
    v.map_values(|r: (String, i64, i64)| (r.0@, r.1, r.2))
}

/// The users with more experience than `xp`.
pub open spec fn those_ahead(users: Map<Seq<char>, UserRow>, xp: i64) -> Set<Seq<char>> {
    Set::new(|n: Seq<char>| users.dom().contains(n) && users[n].xp > xp)
}

/// How many users have more experience than `xp`.
pub open spec fn ahead(users: Map<Seq<char>, UserRow>, xp: i64) -> nat {
    those_ahead(users, xp).len()
}

spec fn rows_ahead(rows: Seq<(Seq<char>, UserRow)>, xp: i64) -> nat
    decreases rows.len(),
{
    if rows.len() == 0 {
        0
    } else if rows.last().1.xp > xp {
        rows_ahead(rows.drop_last(), xp) + 1
    } else {
        rows_ahead(rows.drop_last(), xp)
    }
}

proof fn lemma_ahead(rows: Seq<(Seq<char>, UserRow)>, xp: i64)
    requires
        table::distinct_keys(rows),
    ensures
        those_ahead(table::rows_map(rows), xp).finite(),
        ahead(table::rows_map(rows), xp) == rows_ahead(rows, xp),
    decreases rows.len(),
{
    let all = those_ahead(table::rows_map(rows), xp);
    if rows.len() == 0 {
        assert(all =~= Set::empty());
    } else {
        let init = rows.drop_last();
        assert forall|i: int, j: int| 0 <= i < j < init.len() implies (#[trigger] init[i]).0 != (
        #[trigger] init[j]).0 by {
            assert(rows[i].0 != rows[j].0);
        }
        lemma_ahead(init, xp);
        table::lemma_rows_map(init);
        let known = table::rows_map(init);
        assert(!known.dom().contains(rows.last().0)) by {
            if known.dom().contains(rows.last().0) {
                let i = choose|i: int| 0 <= i < init.len() && (#[trigger] init[i]).0 == rows.last().0;
                assert(rows[i].0 != rows[rows.len() - 1].0);
            }
        }
        if rows.last().1.xp > xp {
            assert(all =~= those_ahead(known, xp).insert(rows.last().0));
        } else {
            assert(all =~= those_ahead(known, xp));
        }
    }
}

/// Every giveaway is kept under its own id.
pub open spec fn kept_by_id(giveaways: Map<Seq<char>, GiveawayView>) -> bool {
    forall|id: Seq<char>| #[trigger] giveaways.dom().contains(id) ==> giveaways[id].id == id
}

/// Giveaways as rows under their ids.
pub open spec fn by_id(list: Seq<GiveawayView>) -> Seq<(Seq<char>, GiveawayView)> {
    list.map_values(|g: GiveawayView| (g.id, g))
}

/// The giveaways, each under its own id, in the order in which they were added.
struct GiveawayTable {
    rows: Table<Giveaway>,
}

impl View for GiveawayTable {
    type V = Map<Seq<char>, GiveawayView>;

    closed spec fn view(&self) -> Map<Seq<char>, GiveawayView> {
        self.rows@
    }
}

impl GiveawayTable {
    #[verifier::type_invariant]
    spec fn keyed(self) -> bool {
        kept_by_id(self.rows@)
    }

    spec fn listed(&self) -> Seq<(Seq<char>, GiveawayView)> {
        self.rows.listed()
    }

    fn new() -> (r: Self)
        ensures
            r@ == Map::<Seq<char>, GiveawayView>::empty(),
            r.listed() == Seq::<(Seq<char>, GiveawayView)>::empty(),
    {
        GiveawayTable { rows: Table::new() }
    }

    fn from_list(list: Vec<Giveaway>) -> (r: Self)
        requires
            table::distinct_keys(by_id(row_views(list@))),
        ensures
            r@ == table::rows_map(by_id(row_views(list@))),
            r.listed() == by_id(row_views(list@)),
    {
        let mut left = list;
        let ghost all = by_id(row_views(list@));
        let mut rows: Vec<(String, Giveaway)> = Vec::new();
        let ghost mut done: int = 0;
        proof {
            assert(all.skip(0) =~= all);
            assert(table::pair_views(rows@) =~= all.take(0));
        }
        while left.len() > 0
            invariant
                0 <= done <= all.len(),
                by_id(row_views(left@)) == all.skip(done),
                table::pair_views(rows@) == all.take(done),
            decreases left.len(),
        {
            let ghost before = left@;
            let ghost seen = table::pair_views(rows@);
            let g = left.remove(0);
            proof {
                assert(by_id(row_views(before)).len() == before.len());
                assert(by_id(row_views(before))[0] == (g@.id, g@));
                assert(all.skip(done)[0] == all[done]);
                assert(by_id(row_views(left@)) =~= by_id(row_views(before)).drop_first());
                assert(all.skip(done).drop_first() =~= all.skip(done + 1));
                assert(all.take(done + 1) =~= all.take(done).push(all[done]));
            }
            let id = g.id.clone();
            rows.push((id, g));
            proof {
                assert(table::pair_views(rows@) =~= seen.push((g@.id, g@)));
                done = done + 1;
            }
        }
        proof {
            assert(by_id(row_views(left@)).len() == 0);
            assert(all.take(done) =~= all);
            table::lemma_rows_map(all);
            assert forall|id: Seq<char>| #[trigger]
                table::rows_map(all).dom().contains(id) implies table::rows_map(all)[id].id == id by {
                let k = choose|k: int| 0 <= k < all.len() && (#[trigger] all[k]).0 == id;
                assert(table::rows_map(all).dom().contains(all[k].0));
                assert(all[k].1.id == all[k].0);
            }
        }
        GiveawayTable { rows: Table::from_rows(rows) }
    }

    fn len(&self) -> (r: usize)
        ensures
            r == self.listed().len(),
            self@ == table::rows_map(self.listed()),
            table::distinct_keys(self.listed()),
            kept_by_id(self@),
    {
        proof {
            use_type_invariant(self);
        }
        self.rows.len()
    }

    fn value_at(&self, i: usize) -> (r: &Giveaway)
        requires
            i < self.listed().len(),
        ensures
            r@ == self.listed()[i as int].1,
    {
        self.rows.value_at(i)
    }

    fn contains_key(&self, id: &str) -> (r: bool)
        ensures
            r == self@.dom().contains(id@),
    {
        self.rows.contains_key(id)
    }

    fn get(&self, id: &str) -> (r: Option<&Giveaway>)
        ensures
            match r {
                Some(g) => self@.dom().contains(id@) && g@ == self@[id@] && g@.id == id@,
                None => !self@.dom().contains(id@),
            },
    {
        proof {
            use_type_invariant(self);
        }
        self.rows.get(id)
    }

    fn insert(&mut self, id: &str, g: Giveaway)
        requires
            g@.id == id@,
        ensures
            final(self)@ == old(self)@.insert(id@, g@),
            !old(self)@.dom().contains(id@) ==> final(self).listed() == old(self).listed().push(
                (id@, g@),
            ),
            old(self)@.dom().contains(id@) ==> table::row_keys(final(self).listed())
                == table::row_keys(old(self).listed()),
    {
        proof {
            use_type_invariant(&*self);
        }
        let ghost value = g@;
        let mut rows: Table<Giveaway> = Table::new();
        std::mem::swap(&mut rows, &mut self.rows);
        rows.insert(id, g);
        proof {
            assert(kept_by_id(rows@));
        }
        self.rows = rows;
    }
}

/// The community tables.
pub struct Database {
    users: Table<UserRow>,
    xp_log: Vec<XpEntry>,
    giveaways: GiveawayTable,
    entries: Vec<Entry>,
    reputation: Vec<RepRow>,
    channels: Table<ChannelRow>,
}

impl View for Database {
    type V = CommunityView;

    closed spec fn view(&self) -> CommunityView {
        CommunityView {
            users: self.users@,
            xp_log: row_views(self.xp_log@),
            giveaways: self.giveaways@,
            giveaway_ids: table::row_keys(self.giveaways.listed()),
            entries: row_views(self.entries@),
            reputation: row_views(self.reputation@),
            channels: self.channels@,
        }
    }
}

fn find_rep(rows: &Vec<RepRow>, from: &str, to: &str) -> (r: Option<i64>)
    ensures
        r == last_rep(row_views(rows@), from@, to@),
{
    let ghost all = row_views(rows@);
    let mut i: usize = rows.len();
    proof {
        assert(all.take(i as int) =~= all);
    }
    while i > 0
        invariant
            i <= rows.len(),
            all == row_views(rows@),
            last_rep(all, from@, to@) == last_rep(all.take(i as int), from@, to@),
        decreases i,
    {
        let row = &rows[i - 1];
        proof {
            assert(all.take(i as int).last() == row@);
            assert(all.take(i as int).drop_last() =~= all.take(i - 1));
        }
        if text::same(row.from.as_str(), from) && text::same(row.to.as_str(), to) {
            return Some(row.timestamp);
        }
        i = i - 1;
    }
    None
}

fn plus(a: i64, b: i64) -> (r: Option<i64>)
    ensures
        match r {
            Some(n) => n == a + b,
            None => !fits(a + b),
        },
{
    a.checked_add(b)
}

fn lapsed_less(now: i64, then: i64, cooldown: i64) -> (r: bool)
    ensures
        r == within(now, then, cooldown),
{
    (now as i128) - (then as i128) < (cooldown as i128)
}

impl Database {
    /// Empty tables.
    pub fn new() -> (r: Self)
        ensures
            r@ == (CommunityView {
                users: Map::empty(),
                xp_log: Seq::empty(),
                giveaways: Map::empty(),
                giveaway_ids: Seq::empty(),
                entries: Seq::empty(),
                reputation: Seq::empty(),
                channels: Map::empty(),
            }),
    {
        let r = Database {
            users: Table::new(),
            xp_log: Vec::new(),
            giveaways: GiveawayTable::new(),
            entries: Vec::new(),
            reputation: Vec::new(),
            channels: Table::new(),
        };
        proof {
            assert(r@.xp_log =~= Seq::empty());
            assert(r@.giveaway_ids =~= Seq::empty());
            assert(r@.entries =~= Seq::empty());
            assert(r@.reputation =~= Seq::empty());
        }
        r
    }

    fn user_row(&self, npub: &str, now: i64) -> (r: UserRow)
        ensures
            r == self@.user(npub@, now),
    {
        match self.users.get(npub) {
            Some(row) => *row,
            None => UserRow {
                xp: 0,
                level: 0,
                messages_sent: 0,
                sats_tipped: 0,
                sats_zapped: 0,
                first_seen: now,
                last_xp_at: 0,
                rep: 0,
            },
        }
    }

    /// Gives a user experience. Returns the new level and whether it is higher than before.
    pub fn award_xp(&mut self, npub: &str, amount: i64, channel_id: &str, now: i64) -> (r: Result<
        (i64, bool),
        StoreError,
    >)
        ensures
            ({
                let u = old(self)@.user(npub@, now);
                match r {
                    Ok((level, up)) => fits(u.xp + amount) && level == level_of(u.xp + amount)
                        && up == (level > u.level) && final(self)@ == old(self)@.with_award(
                        npub@,
                        amount,
                        channel_id@,
                        now,
                    ),
                    Err(e) => e == StoreError::Overflow && !fits(u.xp + amount) && final(self)@
                        == old(self)@,
                }
            }),
    {
        let row = self.user_row(npub, now);
        match plus(row.xp, amount) {
            None => Err(StoreError::Overflow),
            Some(xp) => {
                let level: i64 = level_for_xp(xp);
                let ghost before = self@;
                self.users.insert(npub, UserRow { xp, level, last_xp_at: now, ..row });
                self.xp_log.push(
                    XpEntry {
                        npub: npub.to_owned(),
                        amount,
                        timestamp: now,
                        channel_id: channel_id.to_owned(),
                    },
                );
                proof {
                    assert(self@ =~= before.with_award(npub@, amount, channel_id@, now));
                }
                Ok((level, level > row.level))
            },
        }
    }

    /// Whether a user got experience less than `cooldown_secs` ago.
    pub fn is_on_xp_cooldown(&self, npub: &str, cooldown_secs: i64, now: i64) -> (r: bool)
        ensures
            r == self@.on_cooldown(npub@, cooldown_secs, now),
    {
        match self.users.get(npub) {
            Some(row) => lapsed_less(now, row.last_xp_at, cooldown_secs),
            None => false,
        }
    }

    /// Counts one message of a user.
    pub fn increment_messages(&mut self, npub: &str, now: i64) -> (r: Result<(), StoreError>)
        ensures
            ({
                let u = old(self)@.user(npub@, now);
                match r {
                    Ok(_) => fits(u.messages_sent + 1) && final(self)@ == old(self)@.with_user(
                        npub@,
                        UserRow { messages_sent: (u.messages_sent + 1) as i64, ..u },
                    ),
                    Err(e) => e == StoreError::Overflow && !fits(u.messages_sent + 1)
                        && final(self)@ == old(self)@,
                }
            }),
    {
        let row = self.user_row(npub, now);
        match plus(row.messages_sent, 1) {
            None => Err(StoreError::Overflow),
            Some(messages_sent) => {
                let ghost before = self@;
                self.users.insert(npub, UserRow { messages_sent, ..row });
                proof {
                    assert(self@ =~= before.with_user(npub@, UserRow { messages_sent, ..row }));
                }
                Ok(())
            },
        }
    }

    /// Adds to what a user has tipped.
    pub fn add_sats_tipped(&mut self, npub: &str, sats: i64, now: i64) -> (r: Result<
        (),
        StoreError,
    >)
        ensures
            ({
                let u = old(self)@.user(npub@, now);
                match r {
                    Ok(_) => fits(u.sats_tipped + sats) && final(self)@ == old(self)@.with_user(
                        npub@,
                        UserRow { sats_tipped: (u.sats_tipped + sats) as i64, ..u },
                    ),
                    Err(e) => e == StoreError::Overflow && !fits(u.sats_tipped + sats)
                        && final(self)@ == old(self)@,
                }
            }),
    {
        let row = self.user_row(npub, now);
        match plus(row.sats_tipped, sats) {
            None => Err(StoreError::Overflow),
            Some(sats_tipped) => {
                let ghost before = self@;
                self.users.insert(npub, UserRow { sats_tipped, ..row });
                proof {
                    assert(self@ =~= before.with_user(npub@, UserRow { sats_tipped, ..row }));
                }
                Ok(())
            },
        }
    }

    /// Adds to what a user has zapped.
    pub fn add_sats_zapped(&mut self, npub: &str, sats: i64, now: i64) -> (r: Result<
        (),
        StoreError,
    >)
        ensures
            ({
                let u = old(self)@.user(npub@, now);
                match r {
                    Ok(_) => fits(u.sats_zapped + sats) && final(self)@ == old(self)@.with_user(
                        npub@,
                        UserRow { sats_zapped: (u.sats_zapped + sats) as i64, ..u },
                    ),
                    Err(e) => e == StoreError::Overflow && !fits(u.sats_zapped + sats)
                        && final(self)@ == old(self)@,
                }
            }),
    {
        let row = self.user_row(npub, now);
        match plus(row.sats_zapped, sats) {
            None => Err(StoreError::Overflow),
            Some(sats_zapped) => {
                let ghost before = self@;
                self.users.insert(npub, UserRow { sats_zapped, ..row });
                proof {
                    assert(self@ =~= before.with_user(npub@, UserRow { sats_zapped, ..row }));
                }
                Ok(())
            },
        }
    }

    /// A user's stats; all zero, without a name, for an unknown user.
    pub fn get_user(&self, npub: &str) -> (r: UserStats)
        ensures
            self@.users.dom().contains(npub@) ==> r.npub@ == npub@ && stats_row(r)
                == self@.users[npub@],
            !self@.users.dom().contains(npub@) ==> r.npub@.len() == 0 && stats_row(r) == new_user(
                0,
            ),
    {
        match self.users.get(npub) {
            Some(row) => UserStats {
                npub: npub.to_owned(),
                xp: row.xp,
                level: row.level,
                messages_sent: row.messages_sent,
                sats_tipped: row.sats_tipped,
                sats_zapped: row.sats_zapped,
                first_seen: row.first_seen,
                last_xp_at: row.last_xp_at,
                rep: row.rep,
            },
            None => UserStats {
                npub: String::new(),
                xp: 0,
                level: 0,
                messages_sent: 0,
                sats_tipped: 0,
                sats_zapped: 0,
                first_seen: 0,
                last_xp_at: 0,
                rep: 0,
            },
        }
    }

    /// The users with the most experience: npub, level and experience of at most `limit` of them,
    /// of all for a negative limit.
    pub fn get_leaderboard(&self, limit: i64) -> (r: Vec<(String, i64, i64)>)
        ensures
            ranks_users(ranked_views(r@), self@.users),
            r.len() == if 0 <= limit < self@.users.dom().len() {
                limit as nat
            } else {
                self@.users.dom().len()
            },
            self@.users.dom().finite(),
    {
        let n: usize = self.users.len();
        let ghost rows = self.users.listed();
        let mut keys: Vec<i128> = Vec::new();
        let mut i: usize = 0;
        while i < n
            invariant
                i <= n,
                n == rows.len(),
                rows == self.users.listed(),
                keys.len() == i,
                forall|k: int| 0 <= k < i ==> #[trigger] keys@[k] == rows[k].1.xp,
            decreases n - i,
        {
            keys.push(self.users.value_at(i).xp as i128);
            i = i + 1;
        }
        let order = order::sort_order(&keys, false);
        let keep: usize = if limit < 0 || limit as u64 >= n as u64 {
            n
        } else {
            limit as usize
        };
        let mut out: Vec<(String, i64, i64)> = Vec::new();
        let mut k: usize = 0;
        while k < keep
            invariant
                k <= keep <= n,
                n == rows.len(),
                rows == self.users.listed(),
                order::sorts(order@, keys@, false),
                keys.len() == n,
                out.len() == k,
                forall|j: int|
                    0 <= j < k ==> row_matches(
                        #[trigger] ranked_views(out@)[j],
                        rows[order@[j] as int],
                    ),
            decreases keep - k,
        {
            let at: usize = order[k];
            let row = self.users.value_at(at);
            let ghost before = ranked_views(out@);
            out.push((self.users.key_at(at).to_owned(), row.level, row.xp));
            proof {
                assert(ranked_views(out@) =~= before.push(
                    (rows[at as int].0, rows[at as int].1.level, rows[at as int].1.xp),
                ));
            }
            k = k + 1;
        }
        proof {
            let list = ranked_views(out@);
            table::lemma_rows_map(rows);
            assert forall|k: int| 0 <= k < list.len() implies self@.users.dom().contains(
                (#[trigger] list[k]).0,
            ) && self@.users[list[k].0].level == list[k].1 && self@.users[list[k].0].xp
                == list[k].2 by {
                let j = order@[k] as int;
                assert(table::rows_map(rows).dom().contains(rows[j].0));
            }
            assert forall|i: int, j: int| 0 <= i < j < list.len() implies (#[trigger] list[i]).0
                != (#[trigger] list[j]).0 && list[i].2 >= list[j].2 by {
                let a = order@[i] as int;
                let b = order@[j] as int;
                assert(order::precedes(keys@, false, a, b));
                assert(keys@[a] == rows[a].1.xp && keys@[b] == rows[b].1.xp);
                if a < b {
                    assert(rows[a].0 != rows[b].0);
                } else {
                    assert(rows[b].0 != rows[a].0);
                }
            }
            assert forall|u: Seq<char>, j: int|
                self@.users.dom().contains(u) && 0 <= j < list.len() && (forall|i: int|
                    0 <= i < list.len() ==> (#[trigger] list[i]).0 != u) implies #[trigger] self@.users[u].xp
                <= (#[trigger] list[j]).2 by {
                let m = choose|m: int| 0 <= m < rows.len() && (#[trigger] rows[m]).0 == u;
                assert(table::rows_map(rows).dom().contains(rows[m].0));
                assert(order@.contains(m as usize));
                let k = choose|k: int| 0 <= k < order@.len() && order@[k] == m as usize;
                if k < keep {
                    assert(list[k].0 == u);
                }
                let b = order@[j] as int;
                assert(order::precedes(keys@, false, b, m));
                assert(keys@[b] == rows[b].1.xp && keys@[m] == rows[m].1.xp);
            }
        }
        out
    }
}

impl Database {
    /// A user's place by experience: one more than how many users have more. An unknown user has
    /// none to be measured by, and comes first.
    pub fn get_rank(&self, npub: &str) -> (r: Option<i64>)
        ensures
            ({
                let rank = if self@.users.dom().contains(npub@) {
                    ahead(self@.users, self@.users[npub@].xp) + 1
                } else {
                    1
                };
                match r {
                    Some(k) => k == rank,
                    None => !fits(rank as int),
                }
            }),
            self@.users.dom().finite(),
    {
        let n: usize = self.users.len();
        match self.users.get(npub) {
            None => Some(1),
            Some(mine) => {
                let xp: i64 = mine.xp;
                let ghost rows = self.users.listed();
                let mut count: usize = 0;
                let mut i: usize = 0;
                proof {
                    assert(rows.take(0) =~= Seq::empty());
                }
                while i < n
                    invariant
                        i <= n,
                        n == rows.len(),
                        rows == self.users.listed(),
                        count <= i,
                        count == rows_ahead(rows.take(i as int), xp),
                    decreases n - i,
                {
                    proof {
                        assert(rows.take(i + 1).drop_last() =~= rows.take(i as int));
                        assert(rows.take(i + 1).last() == rows[i as int]);
                    }
                    if self.users.value_at(i).xp > xp {
                        count = count + 1;
                    }
                    i = i + 1;
                }
                proof {
                    assert(rows.take(i as int) =~= rows);
                    lemma_ahead(rows, xp);
                }
                if (count as u64) < 0x7fff_ffff_ffff_ffff {
                    Some(count as i64 + 1)
                } else {
                    None
                }
            },
        }
    }

    /// Starts a giveaway. Its id must be new.
    pub fn add_giveaway(
        &mut self,
        id: &str,
        channel_id: &str,
        prize: &str,
        prize_sats: i64,
        starts_at: i64,
        ends_at: i64,
    ) -> (r: Result<(), StoreError>)
        ensures
            match r {
                Ok(_) => !old(self)@.giveaways.dom().contains(id@) && final(self)@ == (
                CommunityView {
                    giveaways: old(self)@.giveaways.insert(
                        id@,
                        GiveawayView {
                            id: id@,
                            channel_id: channel_id@,
                            prize: prize@,
                            prize_sats,
                            starts_at,
                            ends_at,
                            active: true,
                            winner_npub: None,
                        },
                    ),
                    giveaway_ids: old(self)@.giveaway_ids.push(id@),
                    ..old(self)@
                }),
                Err(e) => e == StoreError::Duplicate && old(self)@.giveaways.dom().contains(id@)
                    && final(self)@ == old(self)@,
            },
    {
        if self.giveaways.contains_key(id) {
            return Err(StoreError::Duplicate);
        }
        let ghost before = self@;
        let ghost rows = self.giveaways.listed();
        self.giveaways.insert(
            id,
            Giveaway {
                id: id.to_owned(),
                channel_id: channel_id.to_owned(),
                prize: prize.to_owned(),
                prize_sats,
                starts_at,
                ends_at,
                active: true,
                winner_npub: None,
            },
        );
        proof {
            assert(table::row_keys(self.giveaways.listed()) =~= table::row_keys(rows).push(id@));
            assert(self@.giveaways =~= before.giveaways.insert(id@, self@.giveaways[id@]));
        }
        Ok(())
    }

    fn replace_giveaway(&mut self, id: &str, g: Giveaway)
        requires
            old(self)@.giveaways.dom().contains(id@),
            g@.id == id@,
        ensures
            final(self)@ == (CommunityView {
                giveaways: old(self)@.giveaways.insert(id@, g@),
                ..old(self)@
            }),
    {
        let ghost before = self@;
        self.giveaways.insert(id, g);
        proof {
            assert(self@ =~= CommunityView {
                giveaways: before.giveaways.insert(id@, g@),
                ..before
            });
        }
    }

    /// Closes a giveaway. Returns it as it was.
    pub fn end_giveaway(&mut self, id: &str) -> (r: Option<Giveaway>)
        ensures
            match r {
                Some(g) => old(self)@.giveaways.dom().contains(id@) && g@
                    == old(self)@.giveaways[id@] && final(self)@ == (CommunityView {
                    giveaways: old(self)@.giveaways.insert(
                        id@,
                        GiveawayView { active: false, ..g@ },
                    ),
                    ..old(self)@
                }),
                None => !old(self)@.giveaways.dom().contains(id@) && final(self)@ == old(self)@,
            },
    {
        let found = match self.giveaways.get(id) {
            Some(g) => Some(g.copy()),
            None => None,
        };
        match found {
            Some(g) => {
                let mut closed = g.copy();
                closed.active = false;
                self.replace_giveaway(id, closed);
                Some(g)
            },
            None => None,
        }
    }

    /// The giveaway with an id.
    pub fn get_giveaway(&self, id: &str) -> (r: Option<Giveaway>)
        ensures
            match r {
                Some(g) => self@.giveaways.dom().contains(id@) && g@ == self@.giveaways[id@],
                None => !self@.giveaways.dom().contains(id@),
            },
    {
        match self.giveaways.get(id) {
            Some(g) => Some(g.copy()),
            None => None,
        }
    }

    fn running_giveaways(&self, channel: Option<&str>) -> (r: Vec<Giveaway>)
        ensures
            row_views(r@) == running(
                self@.giveaway_ids,
                self@.giveaways,
                text::opt_str_view(channel),
            ),
            listed_soundly(self@.giveaway_ids, self@.giveaways),
    {
        let n: usize = self.giveaways.len();
        let ghost rows = self.giveaways.listed();
        let ghost ids = self@.giveaway_ids;
        let ghost where_ = text::opt_str_view(channel);
        let mut out: Vec<Giveaway> = Vec::new();
        let mut i: usize = 0;
        proof {
            assert(ids.take(0) =~= Seq::empty());
            assert(row_views(out@) =~= Seq::empty());
            table::lemma_rows_map(rows);
            assert forall|k: int| 0 <= k < rows.len() implies self@.giveaways[(#[trigger] rows[k]).0]
                == rows[k].1 by {
                assert(table::rows_map(rows).dom().contains(rows[k].0));
            }
            assert forall|k: int| 0 <= k < ids.len() implies #[trigger] self@.giveaways.dom().contains(
                ids[k],
            ) by {
                assert(table::rows_map(rows).dom().contains(rows[k].0));
            }
        }
        while i < n
            invariant
                i <= n,
                n == rows.len(),
                rows == self.giveaways.listed(),
                ids == table::row_keys(rows),
                where_ == text::opt_str_view(channel),
                forall|k: int|
                    0 <= k < rows.len() ==> self@.giveaways[(#[trigger] rows[k]).0] == rows[k].1,
                row_views(out@) == running(ids.take(i as int), self@.giveaways, where_),
            decreases n - i,
        {
            let g = self.giveaways.value_at(i);
            let ghost before = row_views(out@);
            proof {
                assert(ids.take(i + 1).drop_last() =~= ids.take(i as int));
                assert(ids.take(i + 1).last() == rows[i as int].0);
                assert(self@.giveaways[rows[i as int].0] == g@);
            }
            let here = match channel {
                Some(c) => text::same(g.channel_id.as_str(), c),
                None => true,
            };
            if g.active && here {
                out.push(g.copy());
                proof {
                    assert(row_views(out@) =~= before.push(g@));
                }
            }
            i = i + 1;
        }
        proof {
            assert(ids.take(i as int) =~= ids);
        }
        out
    }

    /// The running giveaways, oldest first.
    pub fn get_active_giveaways(&self) -> (r: Vec<Giveaway>)
        ensures
            row_views(r@) == running(self@.giveaway_ids, self@.giveaways, None),
            listed_soundly(self@.giveaway_ids, self@.giveaways),
    {
        self.running_giveaways(None)
    }

    /// The running giveaways of a channel, oldest first.
    pub fn get_active_giveaways_in_channel(&self, channel_id: &str) -> (r: Vec<Giveaway>)
        ensures
            row_views(r@) == running(self@.giveaway_ids, self@.giveaways, Some(channel_id@)),
            listed_soundly(self@.giveaway_ids, self@.giveaways),
    {
        self.running_giveaways(Some(channel_id))
    }

    /// Enters a user into a giveaway. Every entry counts, so this always succeeds.
    pub fn add_entry(&mut self, giveaway_id: &str, npub: &str, now: i64) -> (r: bool)
        ensures
            r,
            final(self)@ == (CommunityView {
                entries: old(self)@.entries.push(
                    EntryView { giveaway_id: giveaway_id@, npub: npub@, entered_at: now },
                ),
                ..old(self)@
            }),
    {
        let ghost before = self@;
        self.entries.push(
            Entry { giveaway_id: giveaway_id.to_owned(), npub: npub.to_owned(), entered_at: now },
        );
        proof {
            assert(self@.entries =~= before.entries.push(
                EntryView { giveaway_id: giveaway_id@, npub: npub@, entered_at: now },
            ));
        }
        true
    }

    /// Who entered a giveaway, in the order of entry.
    pub fn get_entries(&self, giveaway_id: &str) -> (r: Vec<String>)
        ensures
            text::views(r@) == entrants(self@.entries, giveaway_id@),
    {
        let ghost all = row_views(self.entries@);
        let mut out: Vec<String> = Vec::new();
        let mut i: usize = 0;
        proof {
            assert(all.take(0) =~= Seq::empty());
            assert(text::views(out@) =~= Seq::empty());
        }
        while i < self.entries.len()
            invariant
                i <= self.entries.len(),
                all == row_views(self.entries@),
                text::views(out@) == entrants(all.take(i as int), giveaway_id@),
            decreases self.entries.len() - i,
        {
            let row = &self.entries[i];
            let ghost before = text::views(out@);
            proof {
                assert(all.take(i + 1).drop_last() =~= all.take(i as int));
                assert(all.take(i + 1).last() == row@);
            }
            if text::same(row.giveaway_id.as_str(), giveaway_id) {
                out.push(row.npub.clone());
                proof {
                    assert(text::views(out@) =~= before.push(row.npub@));
                }
            }
            i = i + 1;
        }
        proof {
            assert(all.take(i as int) =~= all);
        }
        out
    }

    /// Sets the winner of a giveaway and closes it.
    pub fn set_winner(&mut self, giveaway_id: &str, winner_npub: &str)
        ensures
            final(self)@ == old(self)@.with_winner(giveaway_id@, winner_npub@),
    {
        let found = match self.giveaways.get(giveaway_id) {
            Some(g) => Some(g.copy()),
            None => None,
        };
        if let Some(g) = found {
            let mut won = g;
            won.active = false;
            won.winner_npub = Some(winner_npub.to_owned());
            self.replace_giveaway(giveaway_id, won);
        }
    }

    /// Lets the entry with the given number win a giveaway.
    pub fn pick_entry(&mut self, giveaway_id: &str, number: usize) -> (r: Option<String>)
        ensures
            ({
                let who = entrants(old(self)@.entries, giveaway_id@);
                match r {
                    Some(w) => number < who.len() && w@ == who[number as int] && final(self)@
                        == old(self)@.with_winner(giveaway_id@, w@),
                    None => number >= who.len() && final(self)@ == old(self)@,
                }
            }),
    {
        let entries = self.get_entries(giveaway_id);
        if number < entries.len() {
            let winner = entries[number].clone();
            self.set_winner(giveaway_id, winner.as_str());
            Some(winner)
        } else {
            None
        }
    }

    /// Lets one of the entries win a giveaway, by chance. Without entries nothing happens.
    pub fn pick_winner(&mut self, giveaway_id: &str) -> (r: Option<String>)
        ensures
            ({
                let who = entrants(old(self)@.entries, giveaway_id@);
                match r {
                    Some(w) => who.contains(w@) && final(self)@ == old(self)@.with_winner(
                        giveaway_id@,
                        w@,
                    ),
                    None => who.len() == 0 && final(self)@ == old(self)@,
                }
            }),
    {
        let entries = self.get_entries(giveaway_id);
        if entries.len() == 0 {
            return None;
        }
        let number: usize = chance::random_index(entries.len());
        self.pick_entry(giveaway_id, number)
    }

    /// Gives a user one point of reputation from another. Refused within a day of the last time
    /// the same user gave the same user one; the receiver is known from then on in any case.
    pub fn give_rep(&mut self, from: &str, to: &str, now: i64) -> (r: Result<bool, StoreError>)
        ensures
            ({
                let before = old(self)@;
                let u = before.user(to@, now);
                match r {
                    Ok(true) => !before.rep_on_cooldown(from@, to@, now) && fits(u.rep + 1)
                        && final(self)@ == (CommunityView {
                        reputation: rep_given(before.reputation, from@, to@, now),
                        ..before.with_user(to@, UserRow { rep: (u.rep + 1) as i64, ..u })
                    }),
                    Ok(false) => before.rep_on_cooldown(from@, to@, now) && final(self)@
                        == before.with_user(to@, u),
                    Err(e) => e == StoreError::Overflow && !before.rep_on_cooldown(from@, to@, now)
                        && !fits(u.rep + 1) && final(self)@ == before,
                }
            }),
    {
        let ghost before = self@;
        let row = self.user_row(to, now);
        if self.check_rep_cooldown(from, to, now) {
            self.users.insert(to, row);
            proof {
                assert(self@ =~= before.with_user(to@, row));
            }
            return Ok(false);
        }
        match plus(row.rep, 1) {
            None => Err(StoreError::Overflow),
            Some(rep) => {
                self.record_rep(from, to, now);
                self.users.insert(to, UserRow { rep, ..row });
                proof {
                    assert(self@ =~= CommunityView {
                        reputation: rep_given(before.reputation, from@, to@, now),
                        ..before.with_user(to@, UserRow { rep, ..row })
                    });
                }
                Ok(true)
            },
        }
    }

    fn record_rep(&mut self, from: &str, to: &str, now: i64)
        ensures
            final(self)@ == (CommunityView {
                reputation: rep_given(old(self)@.reputation, from@, to@, now),
                ..old(self)@
            }),
    {
        let ghost before = self@;
        let ghost rows = self.reputation@;
        if find_rep(&self.reputation, from, to).is_some() {
            let mut out: Vec<RepRow> = Vec::new();
            let mut i: usize = 0;
            while i < self.reputation.len()
                invariant
                    i <= self.reputation.len(),
                    rows == self.reputation@,
                    self@ == before,
                    out.len() == i,
                    forall|k: int|
                        0 <= k < i ==> (#[trigger] out@[k])@ == if rows[k].from@ == from@
                            && rows[k].to@ == to@ {
                            RepView { timestamp: now, ..rows[k]@ }
                        } else {
                            rows[k]@
                        },
                decreases self.reputation.len() - i,
            {
                let row = &self.reputation[i];
                let hit = text::same(row.from.as_str(), from) && text::same(row.to.as_str(), to);
                out.push(
                    RepRow {
                        from: row.from.clone(),
                        to: row.to.clone(),
                        timestamp: if hit {
                            now
                        } else {
                            row.timestamp
                        },
                    },
                );
                i = i + 1;
            }
            self.reputation = out;
            proof {
                assert(self@.reputation =~= rep_given(before.reputation, from@, to@, now));
            }
        } else {
            self.reputation.push(
                RepRow { from: from.to_owned(), to: to.to_owned(), timestamp: now },
            );
            proof {
                assert(self@.reputation =~= rep_given(before.reputation, from@, to@, now));
            }
        }
    }

    /// Whether a user may not yet give another one reputation again.
    pub fn check_rep_cooldown(&self, from: &str, to: &str, now: i64) -> (r: bool)
        ensures
            r == self@.rep_on_cooldown(from@, to@, now),
    {
        match find_rep(&self.reputation, from, to) {
            Some(t) => lapsed_less(now, t, REP_COOLDOWN_SECS),
            None => false,
        }
    }

    /// Whether the bot is switched on in a channel. It is off until someone switches it on.
    pub fn is_channel_enabled(&self, channel_id: &str) -> (r: bool)
        ensures
            r == self@.enabled(channel_id@),
    {
        match self.channels.get(channel_id) {
            Some(row) => row.enabled,
            None => false,
        }
    }

    /// Switches the bot on or off in a channel.
    pub fn set_channel_enabled(
        &mut self,
        channel_id: &str,
        enabled: bool,
        updated_by: &str,
        now: i64,
    )
        ensures
            final(self)@ == old(self)@.with_channel(
                channel_id@,
                ChannelView { enabled, updated_at: now, updated_by: updated_by@ },
            ),
    {
        let ghost before = self@;
        let row = ChannelRow { enabled, updated_at: now, updated_by: updated_by.to_owned() };
        self.channels.insert(channel_id, row);
        proof {
            assert(self@ =~= before.with_channel(
                channel_id@,
                ChannelView { enabled, updated_at: now, updated_by: updated_by@ },
            ));
        }
    }

    /// Switches the bot off in a channel, as it is when it comes into one.
    pub fn disable_channel(&mut self, channel_id: &str, now: i64)
        ensures
            final(self)@ == old(self)@.with_channel(
                channel_id@,
                ChannelView { enabled: false, updated_at: now, updated_by: "system"@ },
            ),
    {
        self.set_channel_enabled(channel_id, false, "system", now);
    }
}

/// A ranked row repeats a stored one.
pub open spec fn row_matches(ranked: (Seq<char>, i64, i64), row: (Seq<char>, UserRow)) -> bool {
    ranked == (row.0, row.1.level, row.1.xp)
}

/// The row that a user's stats repeat.
pub open spec fn stats_row(s: UserStats) -> UserRow {
    UserRow {
        xp: s.xp,
        level: s.level,
        messages_sent: s.messages_sent,
        sats_tipped: s.sats_tipped,
        sats_zapped: s.sats_zapped,
        first_seen: s.first_seen,
        last_xp_at: s.last_xp_at,
        rep: s.rep,
    }
}

// ---------------------------------------------------------------------------
// Saving and restoring
// ---------------------------------------------------------------------------

/// The tables' rows as lists, for storage.
pub struct Snapshot {
    pub users: Vec<(String, UserRow)>,
    pub xp_log: Vec<XpEntry>,
    pub giveaways: Vec<Giveaway>,
    pub entries: Vec<Entry>,
    pub reputation: Vec<RepRow>,
    pub channels: Vec<(String, ChannelRow)>,
}

impl View for Snapshot {
    type V = CommunityView;

    open spec fn view(&self) -> CommunityView {
        CommunityView {
            users: table::rows_map(table::pair_views(self.users@)),
            xp_log: row_views(self.xp_log@),
            giveaways: table::rows_map(by_id(row_views(self.giveaways@))),
            giveaway_ids: table::row_keys(by_id(row_views(self.giveaways@))),
            entries: row_views(self.entries@),
            reputation: row_views(self.reputation@),
            channels: table::rows_map(table::pair_views(self.channels@)),
        }
    }
}

impl Database {
    /// Tables with the given rows. No giveaway may be listed twice.
    pub fn restore(saved: Snapshot) -> (r: Self)
        requires
            table::distinct_keys(by_id(row_views(saved.giveaways@))),
        ensures
            r@ == saved@,
    {
        let r = Database {
            users: Table::from_rows(saved.users),
            xp_log: saved.xp_log,
            giveaways: GiveawayTable::from_list(saved.giveaways),
            entries: saved.entries,
            reputation: saved.reputation,
            channels: Table::from_rows(saved.channels),
        };
        proof {
            assert(r@ =~= saved@);
        }
        r
    }

    /// The tables' rows. Restored, they give the same tables.
    pub fn snapshot(&self) -> (r: Snapshot)
        ensures
            r@ == self@,
            table::distinct_keys(by_id(row_views(r.giveaways@))),
    {
        let mut users: Vec<(String, UserRow)> = Vec::new();
        let n: usize = self.users.len();
        let ghost rows = self.users.listed();
        let mut i: usize = 0;
        while i < n
            invariant
                i <= n,
                n == rows.len(),
                rows == self.users.listed(),
                table::pair_views(users@) == rows.take(i as int),
            decreases n - i,
        {
            let ghost before = users@;
            users.push((self.users.key_at(i).to_owned(), *self.users.value_at(i)));
            proof {
                assert(table::pair_views(users@) =~= table::pair_views(before).push(
                    rows[i as int],
                ));
                assert(rows.take(i + 1) =~= rows.take(i as int).push(rows[i as int]));
            }
            i = i + 1;
        }
        proof {
            assert(rows.take(i as int) =~= rows);
        }
        let giveaways = self.copy_giveaways();
        let channels = self.copy_channels();
        let r = Snapshot {
            users,
            xp_log: copy_log(&self.xp_log),
            giveaways,
            entries: copy_entries(&self.entries),
            reputation: copy_reputation(&self.reputation),
            channels,
        };
        proof {
            assert(r@ =~= self@);
        }
        r
    }

    fn copy_giveaways(&self) -> (r: Vec<Giveaway>)
        ensures
            by_id(row_views(r@)) == self.giveaways.listed(),
            table::distinct_keys(self.giveaways.listed()),
            self.giveaways@ == table::rows_map(self.giveaways.listed()),
    {
        let mut out: Vec<Giveaway> = Vec::new();
        let n: usize = self.giveaways.len();
        let ghost rows = self.giveaways.listed();
        let mut i: usize = 0;
        proof {
            table::lemma_rows_map(rows);
            assert(by_id(row_views(out@)) =~= rows.take(0));
        }
        while i < n
            invariant
                i <= n,
                n == rows.len(),
                rows == self.giveaways.listed(),
                self.giveaways@ == table::rows_map(rows),
                kept_by_id(self.giveaways@),
                forall|k: int|
                    0 <= k < rows.len() ==> #[trigger] table::rows_map(rows).dom().contains(
                        rows[k].0,
                    ) && table::rows_map(rows)[rows[k].0] == rows[k].1,
                by_id(row_views(out@)) == rows.take(i as int),
            decreases n - i,
        {
            let ghost before = by_id(row_views(out@));
            out.push(self.giveaways.value_at(i).copy());
            proof {
                assert(table::rows_map(rows).dom().contains(rows[i as int].0));
                assert(rows[i as int].1.id == rows[i as int].0);
                assert(by_id(row_views(out@)) =~= before.push(rows[i as int]));
                assert(rows.take(i + 1) =~= rows.take(i as int).push(rows[i as int]));
            }
            i = i + 1;
        }
        proof {
            assert(rows.take(i as int) =~= rows);
        }
        out
    }

    fn copy_channels(&self) -> (r: Vec<(String, ChannelRow)>)
        ensures
            table::pair_views(r@) == self.channels.listed(),
            self.channels@ == table::rows_map(self.channels.listed()),
    {
        let mut out: Vec<(String, ChannelRow)> = Vec::new();
        let n: usize = self.channels.len();
        let ghost rows = self.channels.listed();
        let mut i: usize = 0;
        while i < n
            invariant
                i <= n,
                n == rows.len(),
                rows == self.channels.listed(),
                table::pair_views(out@) == rows.take(i as int),
            decreases n - i,
        {
            let ghost before = out@;
            let row = self.channels.value_at(i);
            let copied = ChannelRow {
                enabled: row.enabled,
                updated_at: row.updated_at,
                updated_by: row.updated_by.clone(),
            };
            out.push((self.channels.key_at(i).to_owned(), copied));
            proof {
                assert(table::pair_views(out@) =~= table::pair_views(before).push(rows[i as int]));
                assert(rows.take(i + 1) =~= rows.take(i as int).push(rows[i as int]));
            }
            i = i + 1;
        }
        proof {
            assert(rows.take(i as int) =~= rows);
        }
        out
    }
}

fn copy_log(rows: &Vec<XpEntry>) -> (r: Vec<XpEntry>)
    ensures
        row_views(r@) == row_views(rows@),
{
    let mut out: Vec<XpEntry> = Vec::new();
    let mut i: usize = 0;
    while i < rows.len()
        invariant
            i <= rows.len(),
            out.len() == i,
            forall|k: int| 0 <= k < i ==> (#[trigger] out@[k])@ == rows@[k]@,
        decreases rows.len() - i,
    {
        let row = &rows[i];
        out.push(
            XpEntry {
                npub: row.npub.clone(),
                amount: row.amount,
                timestamp: row.timestamp,
                channel_id: row.channel_id.clone(),
            },
        );
        i = i + 1;
    }
    proof {
        assert(row_views(out@) =~= row_views(rows@));
    }
    out
}

fn copy_entries(rows: &Vec<Entry>) -> (r: Vec<Entry>)
    ensures
        row_views(r@) == row_views(rows@),
{
    let mut out: Vec<Entry> = Vec::new();
    let mut i: usize = 0;
    while i < rows.len()
        invariant
            i <= rows.len(),
            out.len() == i,
            forall|k: int| 0 <= k < i ==> (#[trigger] out@[k])@ == rows@[k]@,
        decreases rows.len() - i,
    {
        let row = &rows[i];
        out.push(
            Entry {
                giveaway_id: row.giveaway_id.clone(),
                npub: row.npub.clone(),
                entered_at: row.entered_at,
            },
        );
        i = i + 1;
    }
    proof {
        assert(row_views(out@) =~= row_views(rows@));
    }
    out
}

fn copy_reputation(rows: &Vec<RepRow>) -> (r: Vec<RepRow>)
    ensures
        row_views(r@) == row_views(rows@),
{
    let mut out: Vec<RepRow> = Vec::new();
    let mut i: usize = 0;
    while i < rows.len()
        invariant
            i <= rows.len(),
            out.len() == i,
            forall|k: int| 0 <= k < i ==> (#[trigger] out@[k])@ == rows@[k]@,
        decreases rows.len() - i,
    {
        let row = &rows[i];
        out.push(
            RepRow { from: row.from.clone(), to: row.to.clone(), timestamp: row.timestamp },
        );
        i = i + 1;
    }
    proof {
        assert(row_views(out@) =~= row_views(rows@));
    }
    out
}

// ---------------------------------------------------------------------------
// Laws
// ---------------------------------------------------------------------------

/// Whoever gained experience is on cooldown right after, for any cooldown longer than nothing,
/// and nobody else's cooldown changes.
pub proof fn law_award_starts_cooldown(
    db: CommunityView,
    npub: Seq<char>,
    amount: i64,
    channel: Seq<char>,
    now: i64,
    cooldown: i64,
    other: Seq<char>,
)
    requires
        cooldown > 0,
        other != npub,
    ensures
        db.with_award(npub, amount, channel, now).on_cooldown(npub, cooldown, now),
        db.with_award(npub, amount, channel, now).on_cooldown(other, cooldown, now)
            == db.on_cooldown(other, cooldown, now),
{
}

/// A positive award never lowers a level that agrees with the experience it stands for.
pub proof fn law_award_never_demotes(
    db: CommunityView,
    npub: Seq<char>,
    amount: i64,
    channel: Seq<char>,
    now: i64,
)
    requires
        amount >= 0,
        fits(db.user(npub, now).xp + amount),
        db.user(npub, now).level == level_of(db.user(npub, now).xp as int),
    ensures
        ({
            let after = db.with_award(npub, amount, channel, now).users[npub];
            &&& after.level >= db.user(npub, now).level
            &&& after.level == level_of(after.xp as int)
        }),
{
    let xp = db.user(npub, now).xp;
    law_level_grows_with_xp(xp as int, xp + amount);
    law_level_brackets_xp(xp + amount);
}

proof fn lemma_rep_given(rows: Seq<RepView>, from: Seq<char>, to: Seq<char>, ts: i64, a: Seq<char>, b: Seq<char>)
    ensures
        last_rep(rep_given(rows, from, to, ts), from, to) == Some(ts),
        (a != from || b != to) ==> last_rep(rep_given(rows, from, to, ts), a, b) == last_rep(
            rows,
            a,
            b,
        ),
    decreases rows.len(),
{
    let after = rep_given(rows, from, to, ts);
    if last_rep(rows, from, to) is None {
        assert(after.drop_last() =~= rows);
    } else {
        let init = rows.drop_last();
        if last_rep(init, from, to) is Some {
            lemma_rep_given(init, from, to, ts, a, b);
            assert(after.drop_last() =~= rep_given(init, from, to, ts));
        } else {
            lemma_rep_untouched(init, from, to, ts);
            assert(after.drop_last() =~= init);
        }
    }
}

proof fn lemma_rep_untouched(rows: Seq<RepView>, from: Seq<char>, to: Seq<char>, ts: i64)
    requires
        last_rep(rows, from, to) is None,
    ensures
        rows.map_values(
            |r: RepView|
                if r.from == from && r.to == to {
                    RepView { timestamp: ts, ..r }
                } else {
                    r
                },
        ) == rows,
    decreases rows.len(),
{
    let f = |r: RepView|
        if r.from == from && r.to == to {
            RepView { timestamp: ts, ..r }
        } else {
            r
        };
    if rows.len() > 0 {
        lemma_rep_untouched(rows.drop_last(), from, to, ts);
        assert forall|i: int| 0 <= i < rows.len() implies rows.map_values(f)[i] == rows[i] by {
            if i < rows.len() - 1 {
                assert(rows.drop_last().map_values(f)[i] == rows.drop_last()[i]);
            }
        }
    }
    assert(rows.map_values(f) =~= rows);
}

/// Reputation that was given cannot be given again by the same user to the same user within a
/// day; afterwards it can, and every other pair is as free as before.
pub proof fn law_reputation_once_a_day(
    db: CommunityView,
    from: Seq<char>,
    to: Seq<char>,
    now: i64,
    later: i64,
    a: Seq<char>,
    b: Seq<char>,
)
    requires
        a != from || b != to,
    ensures
        ({
            let after = CommunityView {
                reputation: rep_given(db.reputation, from, to, now),
                ..db
            };
            &&& after.rep_on_cooldown(from, to, later) == (later - now < REP_COOLDOWN_SECS)
            &&& after.rep_on_cooldown(a, b, later) == db.rep_on_cooldown(a, b, later)
        }),
{
    lemma_rep_given(db.reputation, from, to, now, a, b);
}

/// A channel is on exactly from being switched on to being switched off; switching one says
/// nothing of another.
pub proof fn law_channel_switch(
    db: CommunityView,
    channel: Seq<char>,
    row: ChannelView,
    other: Seq<char>,
)
    requires
        other != channel,
    ensures
        db.with_channel(channel, row).enabled(channel) == row.enabled,
        db.with_channel(channel, row).enabled(other) == db.enabled(other),
{
}

/// A giveaway with a winner is closed, and every other giveaway is as it was.
pub proof fn law_winner_closes_giveaway(
    db: CommunityView,
    id: Seq<char>,
    winner: Seq<char>,
    other: Seq<char>,
)
    requires
        db.giveaways.dom().contains(id),
        other != id,
    ensures
        ({
            let after = db.with_winner(id, winner).giveaways;
            &&& !after[id].active && after[id].winner_npub == Some(winner)
            &&& after.dom().contains(other) == db.giveaways.dom().contains(other)
            &&& after[other] == db.giveaways[other]
        }),
{
}

} // verus!
