//! Levels, profiles, giveaways and reputation.

use vstd::prelude::*;
use crate::community::{CommunityView, Database, EntryView, GiveawayView, UserRow};
use crate::{clock, community, handlers, number, text};

verus! {

// ---------------------------------------------------------------------------
// Pieces of replies
// ---------------------------------------------------------------------------

/// Whether an npub can be shortened at bytes 8 and 4 from its end.
pub open spec fn shortens(npub: Seq<char>) -> bool {
    text::byte_len(npub) > 16 ==> text::at_boundary(npub, 8) && text::at_boundary(
        npub,
        text::byte_len(npub) - 4,
    )
}

/// The first eight and the last four bytes of an npub of more than sixteen.
pub open spec fn shortened(npub: Seq<char>) -> Seq<char> {
    if text::byte_len(npub) > 16 {
        text::first_bytes(npub, 8) + "..."@ + text::bytes_from(npub, text::byte_len(npub) - 4)
    } else {
        npub
    }
}

/// Shortens an npub for people to read.
pub fn short_npub(npub: &str) -> (r: String)
    requires
        shortens(npub@),
    ensures
        r@ == shortened(npub@),
{
    let n: usize = text::len_bytes(npub);
    if n > 16 {
        let (head, _) = text::split_at_byte(npub, 8);
        let (_, tail) = text::split_at_byte(npub, n - 4);
        text::cat3(head, "...", tail)
    } else {
        npub.to_owned()
    }
}

/// Whether an npub can be shortened.
pub fn can_shorten(npub: &str) -> (r: bool)
    ensures
        r == shortens(npub@),
{
    let n: usize = text::len_bytes(npub);
    n <= 16 || (npub.is_char_boundary(8) && npub.is_char_boundary(n - 4))
}

/// An ASCII npub can always be shortened.
pub proof fn law_ascii_npub_shortens(npub: Seq<char>)
    requires
        text::ascii_only(npub),
    ensures
        shortens(npub),
        npub.len() > 16 ==> shortened(npub) == npub.take(8) + "..."@ + npub.skip(npub.len() - 4),
{
    text::lemma_ascii_bytes(npub, npub.len() as int);
    if npub.len() > 16 {
        text::lemma_ascii_bytes(npub, 8);
        text::lemma_ascii_bytes(npub, npub.len() - 4);
    }
}

/// The month in which a user was first seen.
pub open spec fn member_since(ts: i64) -> Seq<char> {
    if ts == 0 {
        "Unknown"@
    } else {
        match clock::utc_text(ts, "%b %Y"@) {
            Some(t) => t,
            None => "Unknown"@,
        }
    }
}

/// Writes the month in which a user was first seen.
pub fn format_member_since(ts: i64) -> (r: String)
    ensures
        r@ == member_since(ts),
{
    if ts == 0 {
        return "Unknown".to_owned();
    }
    match clock::format_utc(ts, "%b %Y") {
        Some(t) => t,
        None => "Unknown".to_owned(),
    }
}

/// How long it is until a time.
pub open spec fn ends_in(ends_at: i64, now: i64) -> Seq<char> {
    let left = ends_at - now;
    if left <= 0 {
        "ended"@
    } else if left < 60 {
        number::decimal(left as nat) + "s"@
    } else if left < 3600 {
        number::decimal((left / 60) as nat) + "m"@
    } else {
        number::decimal((left / 3600) as nat) + "h "@ + number::decimal(
            ((left % 3600) / 60) as nat,
        ) + "m"@
    }
}

/// Writes how long it is until a time.
pub fn format_ends_in(ends_at: i64, now: i64) -> (r: String)
    ensures
        r@ == ends_in(ends_at, now),
{
    let left: i128 = ends_at as i128 - now as i128;
    if left <= 0 {
        return "ended".to_owned();
    }
    let secs: u128 = left as u128;
    if secs < 60 {
        text::cat2(number::show_wide(secs).as_str(), "s")
    } else if secs < 3600 {
        text::cat2(number::show_wide(secs / 60).as_str(), "m")
    } else {
        text::cat4(
            number::show_wide(secs / 3600).as_str(),
            "h ",
            number::show_wide((secs % 3600) / 60).as_str(),
            "m",
        )
    }
}

/// The seconds that a duration such as `10m`, `2h` or `15` stands for; a bare number counts
/// minutes.
pub open spec fn duration_secs(s: Seq<char>) -> Option<nat> {
    let t = text::str_lowercase(text::trimmed(s));
    if t.len() == 0 {
        None
    } else if t.last() == 'm' {
        times(number::unsigned_parsed(t.drop_last(), u64::MAX as nat), 60)
    } else if t.last() == 'h' {
        times(number::unsigned_parsed(t.drop_last(), u64::MAX as nat), 3600)
    } else if number::all_digits(t) {
        times(number::unsigned_parsed(t, u64::MAX as nat), 60)
    } else {
        None
    }
}

/// A number of units in seconds.
pub open spec fn times(n: Option<nat>, unit: nat) -> Option<nat> {
    match n {
        Some(k) => Some(k * unit),
        None => None,
    }
}

fn in_units(s: &str, unit: u64) -> (r: Option<u128>)
    ensures
        match r {
            Some(n) => times(number::unsigned_parsed(s@, u64::MAX as nat), unit as nat) == Some(
                n as nat,
            ),
            None => times(number::unsigned_parsed(s@, u64::MAX as nat), unit as nat) is None,
        },
{
    match number::parse_u64(s) {
        Some(n) => {
            proof {
                let a = n as int;
                let b = unit as int;
                assert(0 <= a * b <= 0xffff_ffff_ffff_ffff * 0xffff_ffff_ffff_ffff)
                    by (nonlinear_arith)
                    requires
                        0 <= a <= 0xffff_ffff_ffff_ffff,
                        0 <= b <= 0xffff_ffff_ffff_ffff,
                ;
            }
            Some(n as u128 * unit as u128)
        },
        None => None,
    }
}

fn read_duration(s: &str) -> (r: Option<u128>)
    ensures
        match r {
            Some(n) => duration_secs(s@) == Some(n as nat),
            None => duration_secs(s@) is None,
        },
{
    let low = text::to_lowercase(text::trim(s));
    let t = low.as_str();
    let n: usize = t.unicode_len();
    if n == 0 {
        return None;
    }
    let last = t.get_char(n - 1);
    let head = t.substring_char(0, n - 1);
    proof {
        assert(head@ =~= t@.drop_last());
    }
    if last == 'm' {
        in_units(head, 60)
    } else if last == 'h' {
        in_units(head, 3600)
    } else if number::is_all_digits(t) {
        in_units(t, 60)
    } else {
        None
    }
}

/// Reads a duration in seconds; nothing where it is none or does not fit.
pub fn parse_duration(s: &str) -> (r: Option<u64>)
    ensures
        match r {
            Some(n) => duration_secs(s@) == Some(n as nat),
            None => duration_secs(s@) is None || duration_secs(s@)->0 > u64::MAX,
        },
{
    match read_duration(s) {
        Some(n) => if n <= 0xffff_ffff_ffff_ffff {
            Some(n as u64)
        } else {
            None
        },
        None => None,
    }
}

/// The user that a command is about: the one named, or the sender.
pub open spec fn target_of(args: Seq<char>, sender: Seq<char>) -> Seq<char> {
    if text::trimmed(args).len() == 0 {
        sender
    } else {
        handlers::plain_npub(args)
    }
}

fn target(args: &str, sender: &str) -> (r: String)
    ensures
        r@ == target_of(args@, sender@),
{
    if text::trim(args).is_empty() {
        sender.to_owned()
    } else {
        handlers::normalize_npub(args)
    }
}

// ---------------------------------------------------------------------------
// Levels
// ---------------------------------------------------------------------------

/// What is known of a user; of someone unknown, nothing.
pub open spec fn known(db: CommunityView, npub: Seq<char>) -> UserRow {
    if db.users.dom().contains(npub) {
        db.users[npub]
    } else {
        community::new_user(0)
    }
}

/// The reply on a level: the progress within it and what the next one takes.
pub open spec fn level_text(display: Seq<char>, level: int, xp: int) -> Seq<char> {
    "📊 "@ + display + " Level "@ + number::signed_decimal(level) + "\n📈 "@
        + number::signed_decimal(xp - community::total_xp(level)) + " / "@
        + number::signed_decimal(community::step_xp(level + 1)) + " XP\n🎯 Next level in "@
        + number::signed_decimal(community::step_xp(level + 1) - (xp - community::total_xp(level)))
        + " XP"@
}

/// Whether what a level took, and what the next one takes, fit a machine word.
pub open spec fn level_fits(level: int) -> bool {
    community::fits(community::total_xp(level)) && community::fits(community::step_xp(level + 1))
}

/// Every level that experience leads to fits.
pub proof fn law_reached_levels_fit(xp: int)
    ensures
        level_fits(community::level_of(xp)),
{
    community::law_level_brackets_xp(xp);
    let level = community::level_of(xp);
    community::lemma_total_bound(level);
    community::lemma_total_bound(level + 1);
    community::lemma_total_grows(level, level);
}

fn show_level(display: &str, level: i64, xp: i64) -> (r: Option<String>)
    ensures
        text::opt_view(r) == if level_fits(level as int) {
            Some(level_text(display@, level as int, xp as int))
        } else {
            None
        },
{
    let needed: i128 = match community::try_xp_for_level(level as i128 + 1) {
        Some(n) => n as i128,
        None => {
            return None;
        },
    };
    let base: i64 = match community::try_cumulative_xp(level) {
        Some(n) => n,
        None => {
            return None;
        },
    };
    let inside: i128 = xp as i128 - base as i128;
    let mut out = text::cat7(
        "📊 ",
        display,
        " Level ",
        number::show_signed(level).as_str(),
        "\n📈 ",
        number::show_signed_wide(inside).as_str(),
        " / ",
    );
    out.push_str(number::show_signed_wide(needed).as_str());
    out.push_str(" XP\n🎯 Next level in ");
    out.push_str(number::show_signed_wide(needed - inside).as_str());
    out.push_str(" XP");
    Some(out)
}

/// Answers `!level` and `!rank`. There is no answer where the name cannot be shortened, or what
/// the stored level takes does not fit a machine word.
pub fn level_command(db: &Database, sender: &str, args: &str) -> (r: Option<String>)
    ensures
        ({
            let npub = target_of(args@, sender@);
            let u = known(db@, npub);
            text::opt_view(r) == if npub.len() == 0 {
                Some("⚠️ Could not determine your npub."@)
            } else if !level_fits(u.level as int) {
                None
            } else if text::trimmed(args@).len() == 0 {
                Some(level_text("Your"@, u.level as int, u.xp as int))
            } else if shortens(npub) {
                Some(level_text(shortened(npub) + "'s"@, u.level as int, u.xp as int))
            } else {
                None
            }
        }),
{
    let npub = target(args, sender);
    if npub.as_str().is_empty() {
        return Some("⚠️ Could not determine your npub.".to_owned());
    }
    let stats = db.get_user(npub.as_str());
    if text::trim(args).is_empty() {
        return show_level("Your", stats.level, stats.xp);
    }
    if !can_shorten(npub.as_str()) {
        return None;
    }
    let display = text::cat2(short_npub(npub.as_str()).as_str(), "'s");
    show_level(display.as_str(), stats.level, stats.xp)
}

/// The place of a row on the leaderboard.
pub open spec fn medal(place: int) -> Seq<char> {
    if place == 0 {
        "🥇"@
    } else if place == 1 {
        "🥈"@
    } else if place == 2 {
        "🥉"@
    } else {
        number::decimal((place + 1) as nat) + "."@
    }
}

/// A line of the leaderboard.
pub open spec fn leader_line(place: int, row: (Seq<char>, i64, i64)) -> Seq<char> {
    medal(place) + " nostr:"@ + row.0 + " — Level "@ + number::signed_decimal(row.1 as int)
        + " ("@ + number::signed_decimal(row.2 as int) + " XP)"@
}

/// The leaderboard.
pub open spec fn leader_lines(rows: Seq<(Seq<char>, i64, i64)>) -> Seq<Seq<char>> {
    Seq::new(rows.len(), |i: int| leader_line(i, rows[i]))
}

/// The reply with the leaderboard.
pub open spec fn leaderboard_text(rows: Seq<(Seq<char>, i64, i64)>) -> Seq<char> {
    if rows.len() == 0 {
        "🏆 Leaderboard is empty. Start chatting to earn XP!"@
    } else {
        text::joined(seq!["🏆 **Leaderboard**"@] + leader_lines(rows), "\n"@)
    }
}

fn show_leader(place: usize, npub: &str, level: i64, xp: i64) -> (r: String)
    ensures
        r@ == leader_line(place as int, (npub@, level, xp)),
{
    let m = if place == 0 {
        "🥇".to_owned()
    } else if place == 1 {
        "🥈".to_owned()
    } else if place == 2 {
        "🥉".to_owned()
    } else {
        text::cat2(number::show_wide(place as u128 + 1).as_str(), ".")
    };
    let mut out = text::cat5(
        m.as_str(),
        " nostr:",
        npub,
        " — Level ",
        number::show_signed(level).as_str(),
    );
    out.push_str(" (");
    out.push_str(number::show_signed(xp).as_str());
    out.push_str(" XP)");
    out
}

/// Writes a leaderboard.
pub fn show_leaderboard(rows: &Vec<(String, i64, i64)>) -> (r: String)
    ensures
        r@ == leaderboard_text(community::ranked_views(rows@)),
{
    let ghost all = community::ranked_views(rows@);
    proof {
        assert(all.len() == rows.len());
    }
    if rows.len() == 0 {
        return "🏆 Leaderboard is empty. Start chatting to earn XP!".to_owned();
    }
    let mut lines: Vec<String> = Vec::new();
    lines.push("🏆 **Leaderboard**".to_owned());
    let mut i: usize = 0;
    while i < rows.len()
        invariant
            i <= rows.len(),
            lines.len() == i + 1,
            all == community::ranked_views(rows@),
            lines@[0]@ == "🏆 **Leaderboard**"@,
            forall|k: int| 1 <= k <= i ==> (#[trigger] lines@[k])@ == leader_line(k - 1, all[k - 1]),
        decreases rows.len() - i,
    {
        let row = &rows[i];
        let line = show_leader(i, row.0.as_str(), row.1, row.2);
        lines.push(line);
        proof {
            assert(all[i as int] == (row.0@, row.1, row.2));
        }
        i = i + 1;
    }
    proof {
        assert(text::views(lines@) =~= seq!["🏆 **Leaderboard**"@] + leader_lines(all));
    }
    text::join(&lines, "\n")
}

/// Answers `!leaderboard`: the ten users with the most experience.
pub fn leaderboard_command(db: &Database) -> (r: String)
    ensures
        exists|rows: Seq<(Seq<char>, i64, i64)>| #[trigger]
            community::ranks_users(rows, db@.users) && rows.len() == (if 10
                < db@.users.dom().len() {
                10
            } else {
                db@.users.dom().len()
            }) && r@ == leaderboard_text(rows),
{
    let rows = db.get_leaderboard(10);
    let ghost all = community::ranked_views(rows@);
    proof {
        assert(all.len() == rows.len());
    }
    show_leaderboard(&rows)
}

/// A profile.
pub open spec fn profile_text(npub: Seq<char>, u: UserRow, rank: Seq<char>) -> Seq<char> {
    "👤 "@ + shortened(npub) + "\n📊 Level "@ + number::signed_decimal(u.level as int) + " · "@
        + number::signed_decimal(u.xp as int) + " XP\n📈 "@ + rank + " on leaderboard\n⚡ "@
        + number::signed_decimal(u.sats_tipped + u.sats_zapped) + " sats tipped/zapped\n💬 "@
        + number::signed_decimal(u.messages_sent as int) + " messages\n🎯 Member since "@
        + member_since(u.first_seen) + "\n⭐ Reputation: "@ + number::signed_decimal(u.rep as int)
}

/// The place of a user, for people to read.
pub open spec fn rank_text(db: CommunityView, npub: Seq<char>) -> Seq<char> {
    let rank = if db.users.dom().contains(npub) {
        community::ahead(db.users, db.users[npub].xp) + 1
    } else {
        1
    };
    if community::fits(rank as int) {
        "#"@ + number::signed_decimal(rank as int)
    } else {
        "Unranked"@
    }
}

/// Answers `!profile`. There is no answer where the name cannot be shortened.
pub fn profile_command(db: &Database, sender: &str, args: &str) -> (r: Option<String>)
    ensures
        ({
            let npub = target_of(args@, sender@);
            text::opt_view(r) == if npub.len() == 0 {
                Some("⚠️ Could not determine your npub."@)
            } else if !shortens(npub) {
                None
            } else {
                Some(profile_text(npub, known(db@, npub), rank_text(db@, npub)))
            }
        }),
{
    let who = target(args, sender);
    let npub = who.as_str();
    if npub.is_empty() {
        return Some("⚠️ Could not determine your npub.".to_owned());
    }
    if !can_shorten(npub) {
        return None;
    }
    let stats = db.get_user(npub);
    let rank = match db.get_rank(npub) {
        Some(k) => text::cat2("#", number::show_signed(k).as_str()),
        None => "Unranked".to_owned(),
    };
    let sats: i128 = stats.sats_tipped as i128 + stats.sats_zapped as i128;
    let ghost u = known(db@, npub@);
    proof {
        assert(u == community::stats_row(stats));
    }
    let mut out = text::cat7(
        "👤 ",
        short_npub(npub).as_str(),
        "\n📊 Level ",
        number::show_signed(stats.level).as_str(),
        " · ",
        number::show_signed(stats.xp).as_str(),
        " XP\n📈 ",
    );
    out.push_str(rank.as_str());
    out.push_str(" on leaderboard\n⚡ ");
    out.push_str(number::show_signed_wide(sats).as_str());
    out.push_str(" sats tipped/zapped\n💬 ");
    out.push_str(number::show_signed(stats.messages_sent).as_str());
    out.push_str(" messages\n🎯 Member since ");
    out.push_str(format_member_since(stats.first_seen).as_str());
    out.push_str("\n⭐ Reputation: ");
    out.push_str(number::show_signed(stats.rep).as_str());
    Some(out)
}

// ---------------------------------------------------------------------------
// Giveaways
// ---------------------------------------------------------------------------

/// What `!giveaway` can be asked for.
pub enum GiveawayRequest {
    Usage,
    End,
    List,
    /// Only one word was given.
    Incomplete,
    /// This is no duration.
    BadDuration(String),
    OutOfRange,
    Start { secs: u64, prize: String, prize_sats: i64 },
}

/// What `!giveaway` is asked for.
pub enum RequestView {
    Usage,
    End,
    List,
    Incomplete,
    BadDuration(Seq<char>),
    OutOfRange,
    Start { secs: u64, prize: Seq<char>, prize_sats: i64 },
}

impl View for GiveawayRequest {
    type V = RequestView;

    open spec fn view(&self) -> RequestView {
        match self {
            GiveawayRequest::Usage => RequestView::Usage,
            GiveawayRequest::End => RequestView::End,
            GiveawayRequest::List => RequestView::List,
            GiveawayRequest::Incomplete => RequestView::Incomplete,
            GiveawayRequest::BadDuration(d) => RequestView::BadDuration(d@),
            GiveawayRequest::OutOfRange => RequestView::OutOfRange,
            GiveawayRequest::Start { secs, prize, prize_sats } => RequestView::Start {
                secs: *secs,
                prize: prize@,
                prize_sats: *prize_sats,
            },
        }
    }
}

/// The sats that a prize such as `50 sats` is worth; nothing for any other prize.
pub open spec fn prize_value(prize: Seq<char>) -> i64 {
    let low = text::str_lowercase(prize);
    let amount = match text::stripped_suffix(low, " sats"@) {
        Some(t) => Some(t),
        None => text::stripped_suffix(low, " sat"@),
    };
    match amount {
        Some(t) => match number::signed_parsed(text::trimmed(t)) {
            Some(n) => n as i64,
            None => 0,
        },
        None => 0,
    }
}

/// What the arguments of `!giveaway` ask for.
pub open spec fn request_of(args: Seq<char>) -> RequestView {
    let a = text::trimmed(args);
    if a.len() == 0 {
        RequestView::Usage
    } else if a == "end"@ {
        RequestView::End
    } else if a == "list"@ {
        RequestView::List
    } else {
        match text::tail_words(a) {
            None => RequestView::Incomplete,
            Some(rest) => match duration_secs(text::head_word(a)) {
                None => RequestView::BadDuration(text::head_word(a)),
                Some(secs) => if secs < 60 || secs > 86400 {
                    RequestView::OutOfRange
                } else {
                    RequestView::Start {
                        secs: secs as u64,
                        prize: text::trimmed(rest),
                        prize_sats: prize_value(text::trimmed(rest)),
                    }
                },
            },
        }
    }
}

fn value_of_prize(prize: &str) -> (r: i64)
    ensures
        r == prize_value(prize@),
{
    let low = text::to_lowercase(prize);
    let amount = match text::strip_suffix(low.as_str(), " sats") {
        Some(t) => Some(t),
        None => text::strip_suffix(low.as_str(), " sat"),
    };
    match amount {
        Some(t) => match number::parse_i64(text::trim(t)) {
            Some(n) => n,
            None => 0,
        },
        None => 0,
    }
}

/// Reads the arguments of `!giveaway`.
pub fn parse_giveaway(args: &str) -> (r: GiveawayRequest)
    ensures
        r@ == request_of(args@),
{
    let a = text::trim(args);
    if a.is_empty() {
        return GiveawayRequest::Usage;
    }
    if text::same(a, "end") {
        return GiveawayRequest::End;
    }
    if text::same(a, "list") {
        return GiveawayRequest::List;
    }
    let (head, tail) = text::split_word(a);
    match tail {
        None => GiveawayRequest::Incomplete,
        Some(rest) => match read_duration(head) {
            None => GiveawayRequest::BadDuration(head.to_owned()),
            Some(secs) => if secs < 60 || secs > 86400 {
                GiveawayRequest::OutOfRange
            } else {
                let prize = text::trim(rest);
                GiveawayRequest::Start {
                    secs: secs as u64,
                    prize: prize.to_owned(),
                    prize_sats: value_of_prize(prize),
                }
            },
        },
    }
}

/// What a request is answered that starts and ends no giveaway.
pub open spec fn refusal(req: RequestView) -> Option<Seq<char>> {
    match req {
        RequestView::Usage => Some(
            "Usage: !giveaway <duration> <prize>\nOr: !giveaway end | !giveaway list\nExamples: !giveaway 10m 50 sats, !giveaway 1h Premium codes x3"@,
        ),
        RequestView::Incomplete => Some(
            "⚠️ Please provide both duration and prize.\nExample: !giveaway 10m 50 sats"@,
        ),
        RequestView::BadDuration(d) => Some(
            "⚠️ Could not parse duration \""@ + d + "\". Use: 10m, 1h, 30m"@,
        ),
        RequestView::OutOfRange => Some("⚠️ Duration must be between 1 minute and 24 hours."@),
        _ => None,
    }
}

/// What to answer to a request that starts and ends no giveaway.
pub fn refuse_giveaway(req: &GiveawayRequest) -> (r: Option<String>)
    ensures
        text::opt_view(r) == refusal(req@),
{
    match req {
        GiveawayRequest::Usage => Some(
            "Usage: !giveaway <duration> <prize>\nOr: !giveaway end | !giveaway list\nExamples: !giveaway 10m 50 sats, !giveaway 1h Premium codes x3".to_owned(),
        ),
        GiveawayRequest::Incomplete => Some(
            "⚠️ Please provide both duration and prize.\nExample: !giveaway 10m 50 sats".to_owned(),
        ),
        GiveawayRequest::BadDuration(d) => Some(
            text::cat3(
                "⚠️ Could not parse duration \"",
                d.as_str(),
                "\". Use: 10m, 1h, 30m",
            ),
        ),
        GiveawayRequest::OutOfRange => Some(
            "⚠️ Duration must be between 1 minute and 24 hours.".to_owned(),
        ),
        _ => None,
    }
}

/// The key of a giveaway that starts at a time in milliseconds.
pub open spec fn giveaway_key(millis: u64) -> Seq<char> {
    "gw-"@ + number::decimal((millis % 1_000_000_000) as nat)
}

/// What starting a giveaway does to the tables, the answer, and the key where it was started.
pub open spec fn start_outcome(
    db: CommunityView,
    channel: Seq<char>,
    secs: u64,
    prize: Seq<char>,
    prize_sats: i64,
    millis: u64,
    now: i64,
) -> (CommunityView, Seq<char>, Option<Seq<char>>) {
    let id = giveaway_key(millis);
    let ends_at = (now + secs) as i64;
    if db.giveaways.dom().contains(id) {
        (db, "⚠️ Could not create giveaway."@, None)
    } else {
        (
            CommunityView {
                giveaways: db.giveaways.insert(
                    id,
                    GiveawayView {
                        id,
                        channel_id: channel,
                        prize,
                        prize_sats,
                        starts_at: now,
                        ends_at,
                        active: true,
                        winner_npub: None,
                    },
                ),
                giveaway_ids: db.giveaway_ids.push(id),
                ..db
            },
            "🎉 **GIVEAWAY!**
🎁 Prize: "@ + prize + "
⏱️ Ends: in "@ + ends_in(ends_at, now)
                + "

React with 🎉 to enter!"@,
            Some(id),
        )
    }
}

/// Starts a giveaway: the answer, and its key where it was started.
pub fn start_giveaway(
    db: &mut Database,
    channel_id: &str,
    secs: u64,
    prize: &str,
    prize_sats: i64,
    millis: u64,
    now: i64,
) -> (r: (String, Option<String>))
    requires
        secs <= 86400,
        now <= i64::MAX - 86400,
    ensures
        (final(db)@, r.0@, text::opt_view(r.1)) == start_outcome(
            old(db)@,
            channel_id@,
            secs,
            prize@,
            prize_sats,
            millis,
            now,
        ),
{
    let id = text::cat2("gw-", number::show(millis % 1_000_000_000).as_str());
    let ends: i64 = now + secs as i64;
    match db.add_giveaway(id.as_str(), channel_id, prize, prize_sats, now, ends) {
        Err(_) => ("⚠️ Could not create giveaway.".to_owned(), None),
        Ok(_) => {
            let reply = text::cat5(
                "🎉 **GIVEAWAY!**\n🎁 Prize: ",
                prize,
                "\n⏱️ Ends: in ",
                format_ends_in(ends, now).as_str(),
                "\n\nReact with 🎉 to enter!",
            );
            (reply, Some(id))
        },
    }
}

/// How a giveaway ended: the prize, and the winner where anyone entered.
pub struct Drawn {
    pub prize: String,
    pub winner: Option<String>,
}

/// How a giveaway ended.
pub struct DrawnView {
    pub prize: Seq<char>,
    pub winner: Option<Seq<char>>,
}

impl View for Drawn {
    type V = DrawnView;

    open spec fn view(&self) -> DrawnView {
        DrawnView { prize: self.prize@, winner: text::opt_view(self.winner) }
    }
}

/// Whether the winner's name can be shortened.
pub open spec fn readable(d: DrawnView) -> bool {
    match d.winner {
        Some(w) => shortens(w),
        None => true,
    }
}

/// What is said of a giveaway that ended; `none` where nobody entered.
pub open spec fn result_text(d: DrawnView, none: Seq<char>) -> Seq<char> {
    match d.winner {
        Some(w) => "🎉 Giveaway ended!\n🎁 Prize: "@ + d.prize + "\n🏆 Winner: "@ + shortened(w),
        None => none + "\n🎁 Prize: "@ + d.prize,
    }
}

fn show_result(d: &Drawn, none: &str) -> (r: Option<String>)
    ensures
        text::opt_view(r) == if readable(d@) {
            Some(result_text(d@, none@))
        } else {
            None
        },
{
    match &d.winner {
        Some(w) => if can_shorten(w.as_str()) {
            Some(
                text::cat4(
                    "🎉 Giveaway ended!\n🎁 Prize: ",
                    d.prize.as_str(),
                    "\n🏆 Winner: ",
                    short_npub(w.as_str()).as_str(),
                ),
            )
        } else {
            None
        },
        None => Some(text::cat3(none, "\n🎁 Prize: ", d.prize.as_str())),
    }
}

/// What is announced when the time of a giveaway is up. There is nothing to say where the
/// winner's name cannot be shortened.
pub fn announce_result(d: &Drawn) -> (r: Option<String>)
    ensures
        text::opt_view(r) == if readable(d@) {
            Some(result_text(d@, "🎉 Giveaway ended — no entries received."@))
        } else {
            None
        },
{
    show_result(d, "🎉 Giveaway ended — no entries received.")
}

/// A draw of a giveaway is fair: the winner is among those who entered, and there is none only
/// where nobody did.
pub open spec fn fair(entries: Seq<EntryView>, g: GiveawayView, d: DrawnView) -> bool {
    let who = community::entrants(entries, g.id);
    d.prize == g.prize && match d.winner {
        Some(w) => who.contains(w),
        None => who.len() == 0,
    }
}

/// The tables once a giveaway was drawn: it is over, and it has the winner, if there is one.
pub open spec fn closed_with(db: CommunityView, id: Seq<char>, winner: Option<Seq<char>>) -> CommunityView {
    match winner {
        Some(w) => db.with_winner(id, w),
        None => if db.giveaways.dom().contains(id) {
            CommunityView {
                giveaways: db.giveaways.insert(
                    id,
                    GiveawayView { active: false, ..db.giveaways[id] },
                ),
                ..db
            }
        } else {
            db
        },
    }
}

/// The tables once giveaways were drawn.
pub open spec fn settled(db: CommunityView, list: Seq<GiveawayView>, draws: Seq<DrawnView>) -> CommunityView
    decreases list.len(),
{
    if list.len() == 0 || draws.len() == 0 {
        db
    } else {
        let before = settled(db, list.drop_last(), draws.drop_last());
        closed_with(before, list.last().id, draws.last().winner)
    }
}

proof fn lemma_settled_entries(db: CommunityView, list: Seq<GiveawayView>, draws: Seq<DrawnView>)
    ensures
        settled(db, list, draws).entries == db.entries,
    decreases list.len(),
{
    if list.len() != 0 && draws.len() != 0 {
        lemma_settled_entries(db, list.drop_last(), draws.drop_last());
    }
}

/// The views of draws.
pub open spec fn draw_views(v: Seq<Drawn>) -> Seq<DrawnView> {
    v.map_values(|d: Drawn| d@)
}

/// `draws` are fair draws of the giveaways that run in a channel.
pub open spec fn drawn_in(db: CommunityView, channel: Seq<char>, draws: Seq<DrawnView>) -> bool {
    let list = community::running(db.giveaway_ids, db.giveaways, Some(channel));
    draws.len() == list.len() && forall|i: int|
        0 <= i < list.len() ==> fair(db.entries, list[i], #[trigger] draws[i])
}

/// The tables once the giveaways that run in a channel were drawn.
pub open spec fn settled_in(db: CommunityView, channel: Seq<char>, draws: Seq<DrawnView>) -> CommunityView {
    settled(db, community::running(db.giveaway_ids, db.giveaways, Some(channel)), draws)
}

proof fn lemma_settled(db: CommunityView, list: Seq<GiveawayView>, draws: Seq<DrawnView>, id: Seq<char>)
    requires
        list.len() == draws.len(),
        forall|k: int| 0 <= k < list.len() ==> db.giveaways.dom().contains((#[trigger] list[k]).id),
    ensures
        ({
            let after = settled(db, list, draws);
            &&& after.giveaway_ids == db.giveaway_ids
            &&& after.giveaways.dom() == db.giveaways.dom()
            &&& after.giveaways[id].channel_id == db.giveaways[id].channel_id
            &&& after.giveaways[id].active ==> db.giveaways[id].active
            &&& (exists|k: int| 0 <= k < list.len() && (#[trigger] list[k]).id == id)
                ==> !after.giveaways[id].active
        }),
    decreases list.len(),
{
    if list.len() > 0 {
        let init = list.drop_last();
        assert forall|k: int| 0 <= k < init.len() implies db.giveaways.dom().contains(
            (#[trigger] init[k]).id,
        ) by {
            assert(init[k] == list[k]);
        }
        lemma_settled(db, init, draws.drop_last(), id);
        let before = settled(db, init, draws.drop_last());
        let last = list[list.len() - 1];
        assert(db.giveaways.dom().contains(last.id));
        assert(settled(db, list, draws).giveaways.dom() =~= db.giveaways.dom());
        if exists|k: int| 0 <= k < list.len() && (#[trigger] list[k]).id == id {
            let k = choose|k: int| 0 <= k < list.len() && (#[trigger] list[k]).id == id;
            if k < init.len() {
                assert(init[k].id == id);
            }
        }
    }
}

proof fn lemma_running_holds(
    ids: Seq<Seq<char>>,
    giveaways: Map<Seq<char>, GiveawayView>,
    channel: Seq<char>,
    i: int,
) -> (k: int)
    requires
        0 <= i < ids.len(),
        giveaways[ids[i]].active,
        giveaways[ids[i]].channel_id == channel,
    ensures
        0 <= k < community::running(ids, giveaways, Some(channel)).len(),
        community::running(ids, giveaways, Some(channel))[k] == giveaways[ids[i]],
    decreases ids.len(),
{
    let init = ids.drop_last();
    if i == init.len() {
        community::running(init, giveaways, Some(channel)).len() as int
    } else {
        assert(init[i] == ids[i]);
        lemma_running_holds(init, giveaways, channel, i)
    }
}

proof fn lemma_running_is_known(
    ids: Seq<Seq<char>>,
    giveaways: Map<Seq<char>, GiveawayView>,
    channel: Seq<char>,
)
    requires
        community::listed_soundly(ids, giveaways),
    ensures
        forall|k: int|
            0 <= k < community::running(ids, giveaways, Some(channel)).len()
                ==> giveaways.dom().contains(
                (#[trigger] community::running(ids, giveaways, Some(channel))[k]).id,
            ),
    decreases ids.len(),
{
    if ids.len() > 0 {
        let init = ids.drop_last();
        assert forall|i: int| 0 <= i < init.len() implies #[trigger] giveaways.dom().contains(
            init[i],
        ) by {
            assert(giveaways.dom().contains(ids[i]));
        }
        lemma_running_is_known(init, giveaways, channel);
        assert(giveaways.dom().contains(ids[ids.len() - 1]));
        let before = community::running(init, giveaways, Some(channel));
        let all = community::running(ids, giveaways, Some(channel));
        assert forall|k: int| 0 <= k < all.len() implies giveaways.dom().contains(
            (#[trigger] all[k]).id,
        ) by {
            if k < before.len() {
                assert(all[k] == before[k]);
            }
        }
    }
}

proof fn lemma_none_running(
    ids: Seq<Seq<char>>,
    giveaways: Map<Seq<char>, GiveawayView>,
    channel: Seq<char>,
)
    requires
        forall|i: int|
            0 <= i < ids.len() ==> !(giveaways[#[trigger] ids[i]].active && giveaways[ids[i]].channel_id
                == channel),
    ensures
        community::running(ids, giveaways, Some(channel)).len() == 0,
    decreases ids.len(),
{
    if ids.len() > 0 {
        let init = ids.drop_last();
        assert forall|i: int| 0 <= i < init.len() implies !(giveaways[#[trigger] init[i]].active
            && giveaways[init[i]].channel_id == channel) by {
            assert(init[i] == ids[i]);
        }
        lemma_none_running(init, giveaways, channel);
        assert(ids[ids.len() - 1] == ids.last());
    }
}

/// Once the giveaways of a channel were drawn none runs there, whether anybody entered or not.
pub proof fn law_ended_giveaways_are_over(
    db: CommunityView,
    channel: Seq<char>,
    draws: Seq<DrawnView>,
)
    requires
        community::listed_soundly(db.giveaway_ids, db.giveaways),
        drawn_in(db, channel, draws),
    ensures
        ({
            let after = settled_in(db, channel, draws);
            community::running(after.giveaway_ids, after.giveaways, Some(channel)).len() == 0
        }),
{
    let ids = db.giveaway_ids;
    let list = community::running(ids, db.giveaways, Some(channel));
    let after = settled_in(db, channel, draws);
    lemma_running_is_known(ids, db.giveaways, channel);
    lemma_settled(db, list, draws, channel);
    assert forall|i: int| 0 <= i < ids.len() implies !(after.giveaways[#[trigger] ids[i]].active
        && after.giveaways[ids[i]].channel_id == channel) by {
        lemma_settled(db, list, draws, ids[i]);
        assert(db.giveaways.dom().contains(ids[i]));
        if db.giveaways[ids[i]].active && db.giveaways[ids[i]].channel_id == channel {
            let k = lemma_running_holds(ids, db.giveaways, channel, i);
            assert(list[k].id == ids[i]);
        }
    }
    lemma_none_running(ids, after.giveaways, channel);
}

/// Ends a giveaway and draws its winner.
pub fn finish_giveaway(db: &mut Database, id: &str, prize: &str) -> (r: Drawn)
    ensures
        r@.prize == prize@,
        match r@.winner {
            Some(w) => community::entrants(old(db)@.entries, id@).contains(w),
            None => community::entrants(old(db)@.entries, id@).len() == 0,
        },
        final(db)@ == closed_with(old(db)@, id@, r@.winner),
{
    let winner = db.pick_winner(id);
    if winner.is_none() {
        let _ = db.end_giveaway(id);
    }
    Drawn { prize: prize.to_owned(), winner }
}

/// Ends all giveaways that run in a channel and draws their winners.
pub fn end_giveaways(db: &mut Database, channel_id: &str) -> (r: Vec<Drawn>)
    ensures
        drawn_in(old(db)@, channel_id@, draw_views(r@)),
        final(db)@ == settled_in(old(db)@, channel_id@, draw_views(r@)),
        community::running(
            final(db)@.giveaway_ids,
            final(db)@.giveaways,
            Some(channel_id@),
        ).len() == 0,
{
    let ghost before = db@;
    let active = db.get_active_giveaways_in_channel(channel_id);
    let ghost list = community::row_views(active@);
    let mut draws: Vec<Drawn> = Vec::new();
    let mut i: usize = 0;
    proof {
        assert(list.take(0) =~= Seq::empty());
        assert(draw_views(draws@) =~= Seq::empty());
    }
    while i < active.len()
        invariant
            i <= active.len(),
            draws.len() == i,
            list == community::row_views(active@),
            list == community::running(
                before.giveaway_ids,
                before.giveaways,
                Some(channel_id@),
            ),
            community::listed_soundly(before.giveaway_ids, before.giveaways),
            db@ == settled(before, list.take(i as int), draw_views(draws@)),
            forall|k: int|
                0 <= k < i ==> fair(before.entries, list[k], #[trigger] draw_views(draws@)[k]),
        decreases active.len() - i,
    {
        let g = &active[i];
        let ghost seen = draw_views(draws@);
        proof {
            lemma_settled_entries(before, list.take(i as int), seen);
            assert(list[i as int] == g@);
        }
        let d = finish_giveaway(db, g.id.as_str(), g.prize.as_str());
        let ghost drawn = d@;
        draws.push(d);
        proof {
            assert(draw_views(draws@) =~= seen.push(drawn));
            assert(list.take(i + 1).drop_last() =~= list.take(i as int));
            assert(list.take(i + 1).last() == g@);
            assert(seen.push(drawn).drop_last() =~= seen);
            assert(fair(before.entries, list[i as int], drawn));
        }
        i = i + 1;
    }
    proof {
        assert(list.take(i as int) =~= list);
        law_ended_giveaways_are_over(before, channel_id@, draw_views(draws@));
    }
    draws
}

/// What is said of each of the giveaways that ended.
pub open spec fn result_lines(draws: Seq<DrawnView>) -> Seq<Seq<char>> {
    draws.map_values(|d: DrawnView| result_text(d, "🎉 Giveaway ended — no entries."@))
}

/// What `!giveaway end` is answered once the winners are drawn: nothing where a winner's name
/// cannot be shortened.
pub open spec fn end_text(all: Seq<DrawnView>) -> Option<Seq<char>> {
    if all.len() == 0 {
        Some("ℹ️ No active giveaways in this channel."@)
    } else if forall|i: int| 0 <= i < all.len() ==> readable(#[trigger] all[i]) {
        Some(text::joined(result_lines(all), "
"@))
    } else {
        None
    }
}

/// Answers `!giveaway end` once the winners are drawn.
pub fn end_reply(draws: &Vec<Drawn>) -> (r: Option<String>)
    ensures
        text::opt_view(r) == end_text(draw_views(draws@)),
{
    let ghost all = draw_views(draws@);
    proof {
        assert(all.len() == draws.len());
    }
    if draws.len() == 0 {
        return Some("ℹ️ No active giveaways in this channel.".to_owned());
    }
    let mut lines: Vec<String> = Vec::new();
    let mut i: usize = 0;
    while i < draws.len()
        invariant
            i <= draws.len(),
            lines.len() == i,
            all == draw_views(draws@),
            forall|k: int| 0 <= k < i ==> readable(#[trigger] all[k]),
            forall|k: int|
                0 <= k < i ==> (#[trigger] lines@[k])@ == result_text(
                    all[k],
                    "🎉 Giveaway ended — no entries."@,
                ),
        decreases draws.len() - i,
    {
        proof {
            assert(all[i as int] == draws@[i as int]@);
        }
        match show_result(&draws[i], "🎉 Giveaway ended — no entries.") {
            Some(line) => {
                lines.push(line);
            },
            None => {
                proof {
                    assert(!readable(all[i as int]));
                }
                return None;
            },
        }
        i = i + 1;
    }
    proof {
        assert(text::views(lines@) =~= result_lines(all));
    }
    Some(text::join(&lines, "\n"))
}

/// A running giveaway as a line.
pub open spec fn giveaway_line(g: GiveawayView, entries: Seq<EntryView>, now: i64) -> Seq<char> {
    "  • "@ + g.prize + " — "@ + shortened(g.channel_id) + " ("@ + number::decimal(
        community::entrants(entries, g.id).len(),
    ) + " entries, ends in "@ + ends_in(g.ends_at, now) + ")"@
}

/// The running giveaways as lines.
pub open spec fn giveaway_lines(list: Seq<GiveawayView>, entries: Seq<EntryView>, now: i64) -> Seq<
    Seq<char>,
> {
    list.map_values(|g: GiveawayView| giveaway_line(g, entries, now))
}

fn show_giveaway(db: &Database, g: &community::Giveaway, now: i64) -> (r: String)
    requires
        shortens(g@.channel_id),
    ensures
        r@ == giveaway_line(g@, db@.entries, now),
{
    let who = db.get_entries(g.id.as_str());
    let ghost names = text::views(who@);
    proof {
        assert(names.len() == who.len());
    }
    let mut out = text::cat7(
        "  • ",
        g.prize.as_str(),
        " — ",
        short_npub(g.channel_id.as_str()).as_str(),
        " (",
        number::show_size(who.len()).as_str(),
        " entries, ends in ",
    );
    out.push_str(format_ends_in(g.ends_at, now).as_str());
    out.push_str(")");
    out
}

/// What `!giveaway list` is answered: nothing where a channel's name cannot be shortened.
pub open spec fn list_text(db: CommunityView, now: i64) -> Option<Seq<char>> {
    let list = community::running(db.giveaway_ids, db.giveaways, None);
    if list.len() == 0 {
        Some("📦 No active giveaways right now."@)
    } else if forall|i: int| 0 <= i < list.len() ==> shortens((#[trigger] list[i]).channel_id) {
        Some(
            text::joined(
                seq!["📦 **Active Giveaways**"@] + giveaway_lines(list, db.entries, now),
                "
"@,
            ),
        )
    } else {
        None
    }
}

/// Answers `!giveaway list`.
pub fn giveaway_list_command(db: &Database, now: i64) -> (r: Option<String>)
    ensures
        text::opt_view(r) == list_text(db@, now),
{
    let active = db.get_active_giveaways();
    let ghost list = community::row_views(active@);
    proof {
        assert(list.len() == active.len());
    }
    if active.len() == 0 {
        return Some("📦 No active giveaways right now.".to_owned());
    }
    let mut lines: Vec<String> = Vec::new();
    lines.push("📦 **Active Giveaways**".to_owned());
    let mut i: usize = 0;
    while i < active.len()
        invariant
            i <= active.len(),
            lines.len() == i + 1,
            list == community::row_views(active@),
            list == community::running(db@.giveaway_ids, db@.giveaways, None),
            lines@[0]@ == "📦 **Active Giveaways**"@,
            forall|k: int| 0 <= k < i ==> shortens((#[trigger] list[k]).channel_id),
            forall|k: int|
                1 <= k <= i ==> (#[trigger] lines@[k])@ == giveaway_line(
                    list[k - 1],
                    db@.entries,
                    now,
                ),
        decreases active.len() - i,
    {
        let g = &active[i];
        proof {
            assert(list[i as int] == g@);
        }
        if !can_shorten(g.channel_id.as_str()) {
            return None;
        }
        let line = show_giveaway(db, g, now);
        lines.push(line);
        i = i + 1;
    }
    proof {
        assert(text::views(lines@) =~= seq!["📦 **Active Giveaways**"@] + giveaway_lines(
            list,
            db@.entries,
            now,
        ));
    }
    Some(text::join(&lines, "\n"))
}

/// Answers `!giveaway`: the reply, if there is one, and the key and the duration of a giveaway that
/// was started.
pub fn giveaway_command(
    db: &mut Database,
    channel_id: &str,
    args: &str,
    millis: u64,
    now: i64,
) -> (r: (Option<String>, Option<(String, u64)>))
    requires
        now <= i64::MAX - 86400,
    ensures
        match request_of(args@) {
            RequestView::End => r.1 is None && exists|draws: Seq<DrawnView>| #[trigger]
                drawn_in(old(db)@, channel_id@, draws) && final(db)@ == settled_in(
                    old(db)@,
                    channel_id@,
                    draws,
                ) && text::opt_view(r.0) == end_text(draws),
            RequestView::List => r.1 is None && text::opt_view(r.0) == list_text(old(db)@, now)
                && final(db)@ == old(db)@,
            RequestView::Start { secs, prize, prize_sats } => {
                let o = start_outcome(
                    old(db)@,
                    channel_id@,
                    secs,
                    prize,
                    prize_sats,
                    millis,
                    now,
                );
                &&& final(db)@ == o.0
                &&& text::opt_view(r.0) == Some(o.1)
                &&& match r.1 {
                    Some(started) => o.2 == Some(started.0@) && started.1 == secs,
                    None => o.2 is None,
                }
            },
            req => r.1 is None && text::opt_view(r.0) == refusal(req) && final(db)@ == old(db)@,
        },
{
    let req = parse_giveaway(args);
    match &req {
        GiveawayRequest::End => {
            let draws = end_giveaways(db, channel_id);
            (end_reply(&draws), None)
        },
        GiveawayRequest::List => (giveaway_list_command(db, now), None),
        GiveawayRequest::Start { secs, prize, prize_sats } => {
            let (reply, id) = start_giveaway(
                db,
                channel_id,
                *secs,
                prize.as_str(),
                *prize_sats,
                millis,
                now,
            );
            match id {
                Some(key) => (Some(reply), Some((key, *secs))),
                None => (Some(reply), None),
            }
        },
        _ => (refuse_giveaway(&req), None),
    }
}

// ---------------------------------------------------------------------------
// Reputation
// ---------------------------------------------------------------------------

/// Experience for a point of reputation.
pub const REP_XP: i64 = 50;

/// The tables once `from` gave `to` a point of reputation.
pub open spec fn rep_recorded(db: CommunityView, from: Seq<char>, to: Seq<char>, now: i64) -> CommunityView {
    let u = db.user(to, now);
    CommunityView {
        reputation: community::rep_given(db.reputation, from, to, now),
        ..db.with_user(to, UserRow { rep: (u.rep + 1) as i64, ..u })
    }
}

/// The tables after `!rep`, and its reply, where `from` names another user.
pub open spec fn rep_outcome(
    db: CommunityView,
    from: Seq<char>,
    to: Seq<char>,
    chat: Seq<char>,
    now: i64,
) -> (CommunityView, Seq<char>) {
    let u = db.user(to, now);
    if db.rep_on_cooldown(from, to, now) {
        (
            db.with_user(to, u),
            "⏰ You've already given rep to this person recently. Try again in 24 hours."@,
        )
    } else if !community::fits(u.rep + 1) {
        (db, "⚠️ Could not give reputation right now."@)
    } else {
        let given = rep_recorded(db, from, to, now);
        let thanks = "⭐ You gave +1 rep to nostr:"@ + to + "! (Total: "@
            + number::signed_decimal(u.rep + 1) + ")"@;
        if !community::fits(u.xp + REP_XP) {
            (given, thanks)
        } else {
            let level = community::level_of(u.xp + REP_XP);
            (
                given.with_award(to, REP_XP, chat, now),
                if level > u.level {
                    thanks + ("\n🎉 nostr:"@ + to + " reached Level "@ + number::signed_decimal(
                        level,
                    ) + "!"@)
                } else {
                    thanks
                },
            )
        }
    }
}

fn give_reputation(db: &mut Database, from: &str, to: &str, chat_id: &str, now: i64) -> (r: String)
    ensures
        final(db)@ == rep_outcome(old(db)@, from@, to@, chat_id@, now).0,
        r@ == rep_outcome(old(db)@, from@, to@, chat_id@, now).1,
{
    let ghost before = db@;
    match db.give_rep(from, to, now) {
        Ok(true) => {
            proof {
                assert(db@ == rep_recorded(before, from@, to@, now));
                assert(db@.users.dom().contains(to@));
            }
            let total: i64 = db.get_user(to).rep;
            let mut reply = text::cat5(
                "⭐ You gave +1 rep to nostr:",
                to,
                "! (Total: ",
                number::show_signed(total).as_str(),
                ")",
            );
            match db.award_xp(to, REP_XP, chat_id, now) {
                Ok((level, up)) => {
                    if up {
                        let more = text::cat5(
                            "\n🎉 nostr:",
                            to,
                            " reached Level ",
                            number::show_signed(level).as_str(),
                            "!",
                        );
                        reply.push_str(more.as_str());
                    }
                },
                Err(_) => {},
            }
            reply
        },
        Ok(false) => "⏰ You've already given rep to this person recently. Try again in 24 hours.".to_owned(),
        Err(_) => "⚠️ Could not give reputation right now.".to_owned(),
    }
}

/// Answers `!rep`: without a name the sender's reputation, else the named user gets a point and
/// fifty points of experience, once a day from the same sender.
pub fn rep_command(db: &mut Database, sender: &str, args: &str, chat_id: &str, now: i64) -> (r:
    String)
    ensures
        ({
            let to = handlers::plain_npub(args@);
            if sender@.len() == 0 {
                r@ == "⚠️ Could not determine your npub."@ && final(db)@ == old(db)@
            } else if text::trimmed(args@).len() == 0 {
                &&& r@ == "⭐ Your reputation: "@ + number::signed_decimal(
                    known(old(db)@, sender@).rep as int,
                )
                &&& final(db)@ == old(db)@
            } else if sender@ == to {
                r@ == "⚠️ You can't give reputation to yourself!"@ && final(db)@ == old(db)@
            } else {
                &&& final(db)@ == rep_outcome(old(db)@, sender@, to, chat_id@, now).0
                &&& r@ == rep_outcome(old(db)@, sender@, to, chat_id@, now).1
            }
        }),
{
    if sender.is_empty() {
        return "⚠️ Could not determine your npub.".to_owned();
    }
    if text::trim(args).is_empty() {
        let stats = db.get_user(sender);
        return text::cat2("⭐ Your reputation: ", number::show_signed(stats.rep).as_str());
    }
    let to = handlers::normalize_npub(args);
    if text::same(sender, to.as_str()) {
        return "⚠️ You can't give reputation to yourself!".to_owned();
    }
    give_reputation(db, sender, to.as_str(), chat_id, now)
}

/// Giving reputation leaves every other user as they were.
pub proof fn law_rep_leaves_others(
    db: CommunityView,
    from: Seq<char>,
    to: Seq<char>,
    other: Seq<char>,
    chat: Seq<char>,
    now: i64,
)
    requires
        other != to,
    ensures
        known(rep_outcome(db, from, to, chat, now).0, other) == known(db, other),
{
}

} // verus!
