//! Utility commands.

use vstd::prelude::*;
use crate::json::{Json, JsonView};
use crate::{chance, clock, json, number, text, url};

verus! {

// ---------------------------------------------------------------------------
// Messages and files
// ---------------------------------------------------------------------------

/// The message that `!delete` names, or how to use it.
pub fn delete_command(args: &str) -> (r: Result<String, String>)
    ensures
        match r {
            Ok(id) => text::trimmed(args@).len() > 0 && id@ == text::trimmed(args@),
            Err(usage) => text::trimmed(args@).len() == 0 && usage@
                == "Usage: !delete <message_id>\n\nDeletes a message. You can only delete your own messages, or messages in communities where you have MANAGE_MESSAGES capability."@,
        },
{
    let id = text::trim(args);
    if id.is_empty() {
        Err(
            "Usage: !delete <message_id>\n\nDeletes a message. You can only delete your own messages, or messages in communities where you have MANAGE_MESSAGES capability.".to_owned(),
        )
    } else {
        Ok(id.to_owned())
    }
}

/// What a deletion is answered that failed: `shown` is the error for people, `detail` all that is
/// known of it.
pub open spec fn delete_failure(detail: Seq<char>, shown: Seq<char>) -> Seq<char> {
    let low = text::str_lowercase(detail);
    if text::has_substring(low, "permission"@) || text::has_substring(low, "manage"@) {
        "⚠️ I don't have permission to delete that message."@
    } else {
        "⚠️ Delete failed: "@ + shown
    }
}

/// The reply once a message was deleted.
pub fn deleted_reply() -> (r: &'static str)
    ensures
        r@ == "🗑️ Message deleted."@,
{
    "🗑️ Message deleted."
}

/// The reply where a message could not be deleted.
pub fn undeleted_reply(detail: &str, shown: &str) -> (r: String)
    ensures
        r@ == delete_failure(detail@, shown@),
{
    let low = text::to_lowercase(detail);
    if text::contains(low.as_str(), "permission") || text::contains(low.as_str(), "manage") {
        "⚠️ I don't have permission to delete that message.".to_owned()
    } else {
        text::cat2("⚠️ Delete failed: ", shown)
    }
}

/// The message and the new text that `!edit` names, if it names both.
pub open spec fn edit_request(args: Seq<char>) -> Option<(Seq<char>, Seq<char>)> {
    match text::tail_words(args) {
        Some(rest) => if text::trimmed(text::head_word(args)).len() > 0 && text::trimmed(rest).len()
            > 0 {
            Some((text::trimmed(text::head_word(args)), text::trimmed(rest)))
        } else {
            None
        },
        None => None,
    }
}

/// The message and the new text that `!edit` names, or how to use it.
pub fn edit_command(args: &str) -> (r: Result<(String, String), String>)
    ensures
        match r {
            Ok(e) => edit_request(args@) == Some((e.0@, e.1@)),
            Err(usage) => edit_request(args@) is None && usage@
                == "Usage: !edit <message_id> <new text>"@,
        },
{
    let (head, tail) = text::split_word(args);
    if let Some(rest) = tail {
        let id = text::trim(head);
        let new_text = text::trim(rest);
        if !id.is_empty() && !new_text.is_empty() {
            return Ok((id.to_owned(), new_text.to_owned()));
        }
    }
    Err("Usage: !edit <message_id> <new text>".to_owned())
}

/// The reply once a message was edited, or why not.
pub fn edited_reply(error: Option<&str>) -> (r: String)
    ensures
        r@ == match error {
            None => "✏️ Message edited."@,
            Some(e) => "⚠️ Edit failed: "@ + e@,
        },
{
    match error {
        None => "✏️ Message edited.".to_owned(),
        Some(e) => text::cat2("⚠️ Edit failed: ", e),
    }
}

/// The name that an attachment is saved under: its own, or its id with its extension.
pub fn attachment_filename(name: &str, id: &str, extension: &str) -> (r: String)
    ensures
        r@ == if name@.len() == 0 {
            id@ + "."@ + extension@
        } else {
            name@
        },
{
    if name.is_empty() {
        text::cat3(id, ".", extension)
    } else {
        name.to_owned()
    }
}

/// What `!savefile` is answered on a message without attachments.
pub fn savefile_usage() -> (r: &'static str)
    ensures
        r@ == "⚠️ This command works on messages with file attachments. Reply to a file message with !savefile."@,
{
    "⚠️ This command works on messages with file attachments. Reply to a file message with !savefile."
}

/// The reply once an attachment was saved to a path, or why not.
pub fn savefile_reply(filename: &str, size: u64, outcome: Result<&str, &str>) -> (r: String)
    ensures
        r@ == match outcome {
            Ok(path) => "💾 Saved "@ + filename@ + " ("@ + number::decimal(size as nat)
                + " bytes) to "@ + path@,
            Err(e) => "⚠️ Failed to save "@ + filename@ + ": "@ + e@,
        },
{
    match outcome {
        Ok(path) => text::cat6(
            "💾 Saved ",
            filename,
            " (",
            number::show(size).as_str(),
            " bytes) to ",
            path,
        ),
        Err(e) => text::cat4("⚠️ Failed to save ", filename, ": ", e),
    }
}

/// Counts a message; the count starts again after the largest.
pub fn increment_message_count(count: &mut u64)
    ensures
        *final(count) == (if *old(count) == u64::MAX {
            0
        } else {
            *old(count) + 1
        }),
{
    if *count == 0xffff_ffff_ffff_ffff {
        *count = 0;
    } else {
        *count = *count + 1;
    }
}

// ---------------------------------------------------------------------------
// !price
// ---------------------------------------------------------------------------

/// A number's digits with a comma before every third from the end.
pub open spec fn grouped(s: Seq<char>, count: int) -> Seq<char>
    decreases count,
{
    if count <= 0 {
        Seq::empty()
    } else if count > 1 && (s.len() - (count - 1)) % 3 == 0 {
        grouped(s, count - 1).push(',').push(s[count - 1])
    } else {
        grouped(s, count - 1).push(s[count - 1])
    }
}

/// Writes a number's digits with thousands separators.
pub fn format_number(digits: &str) -> (r: String)
    ensures
        r@ == grouped(digits@, digits@.len() as int),
{
    let chars = text::chars_of(digits);
    let n: usize = chars.len();
    let mut out = String::new();
    let mut i: usize = 0;
    while i < n
        invariant
            i <= n,
            n == chars.len(),
            chars@ == digits@,
            out@ == grouped(digits@, i as int),
        decreases n - i,
    {
        if i > 0 && (n - i) % 3 == 0 {
            out.push(',');
        }
        out.push(chars[i]);
        i = i + 1;
    }
    out
}

/// A comma stands before every group of three digits, so that digits come back without commas.
pub proof fn law_grouping_keeps_digits(s: Seq<char>, count: int)
    requires
        0 <= count <= s.len(),
        !s.contains(','),
    ensures
        grouped(s, count).filter(|c: char| c != ',') == s.take(count),
    decreases count,
{
    reveal(Seq::filter);
    let keep = |c: char| c != ',';
    if count > 0 {
        law_grouping_keeps_digits(s, count - 1);
        let g = grouped(s, count - 1);
        assert(s[count - 1] != ',');
        assert(s.take(count) =~= s.take(count - 1).push(s[count - 1]));
        let h = if count > 1 && (s.len() - (count - 1)) % 3 == 0 {
            g.push(',')
        } else {
            g
        };
        assert(g.push(',').drop_last() =~= g);
        assert(h.filter(keep) == g.filter(keep));
        assert(h.push(s[count - 1]).drop_last() =~= h);
        assert(grouped(s, count) == h.push(s[count - 1]));
    } else {
        assert(s.take(count) =~= Seq::empty());
    }
}

/// The address of the price.
pub fn price_url() -> (r: &'static str)
    ensures
        r@ == "https://api.coingecko.com/api/v3/simple/price?ids=bitcoin&vs_currencies=usd&include_24hr_change=true"@,
{
    "https://api.coingecko.com/api/v3/simple/price?ids=bitcoin&vs_currencies=usd&include_24hr_change=true"
}

/// The address of the price where the first one fails.
pub fn fallback_price_url() -> (r: &'static str)
    ensures
        r@ == "https://api.coinbase.com/v2/prices/spot?currency=USD"@,
{
    "https://api.coinbase.com/v2/prices/spot?currency=USD"
}

/// The reply with the price: its digits, and the change with whether it is upwards.
pub fn price_command(digits: Option<&str>, change: Option<(bool, &str)>) -> (r: String)
    ensures
        r@ == "₿ Bitcoin: "@ + (match digits {
            Some(d) => "$"@ + grouped(d@, d@.len() as int),
            None => "unavailable"@,
        }) + (match change {
            Some(c) => " "@ + (if c.0 {
                "📈"@
            } else {
                "📉"@
            }) + " ("@ + c.1@ + "% 24h)"@,
            None => ""@,
        }),
{
    let price = match digits {
        Some(d) => text::cat2("$", format_number(d).as_str()),
        None => "unavailable".to_owned(),
    };
    let moved = match change {
        Some((up, by)) => {
            let arrow = if up {
                "📈"
            } else {
                "📉"
            };
            text::cat5(" ", arrow, " (", by, "% 24h)")
        },
        None => "".to_owned(),
    };
    text::cat3("₿ Bitcoin: ", price.as_str(), moved.as_str())
}

/// The reply with the price from the fallback, where that answered.
pub fn fallback_price_reply(data: Option<&Json>) -> (r: String)
    ensures
        r@ == match data {
            Some(d) => match d@.at("data"@).text_at("amount"@) {
                Some(p) => "₿ Bitcoin: $"@ + p,
                None => "⚠️ Could not fetch Bitcoin price right now."@,
            },
            None => "⚠️ Could not fetch Bitcoin price right now."@,
        },
{
    if let Some(d) = data {
        if let Some(p) = d.str_at2("data", "amount") {
            return text::cat2("₿ Bitcoin: $", p);
        }
    }
    "⚠️ Could not fetch Bitcoin price right now.".to_owned()
}

// ---------------------------------------------------------------------------
// !time
// ---------------------------------------------------------------------------

/// The reply to `!time` at a time; nothing for a time out of range.
pub open spec fn time_text(zone: Seq<char>, now: i64) -> Option<Seq<char>> {
    if zone.len() == 0 {
        match clock::utc_text(now, "%Y-%m-%d %H:%M:%S"@) {
            Some(t) => Some("🕐 "@ + t + " UTC"@),
            None => None,
        }
    } else {
        match clock::zone_text(now, zone, "%Y-%m-%d %H:%M:%S"@) {
            Some(t) => Some("🕐 "@ + t + " ("@ + zone + ")"@),
            None => Some(
                "⚠️ Unknown timezone \""@ + zone
                    + "\". Try: UTC, US/Eastern, US/Central, US/Pacific, Europe/London, Asia/Tokyo\nFull list: https://en.wikipedia.org/wiki/List_of_tz_database_time_zones"@,
            ),
        }
    }
}

/// Answers `!time`: the time in UTC or in a time zone.
pub fn time_command(args: &str, now: i64) -> (r: Option<String>)
    ensures
        text::opt_view(r) == time_text(text::trimmed(args@), now),
{
    let zone = text::trim(args);
    if zone.is_empty() {
        return match clock::format_utc(now, "%Y-%m-%d %H:%M:%S") {
            Some(t) => Some(text::cat3("🕐 ", t.as_str(), " UTC")),
            None => None,
        };
    }
    match clock::format_in_zone(now, zone, "%Y-%m-%d %H:%M:%S") {
        Some(t) => Some(text::cat5("🕐 ", t.as_str(), " (", zone, ")")),
        None => Some(
            text::cat3(
                "⚠️ Unknown timezone \"",
                zone,
                "\". Try: UTC, US/Eastern, US/Central, US/Pacific, Europe/London, Asia/Tokyo\nFull list: https://en.wikipedia.org/wiki/List_of_tz_database_time_zones",
            ),
        ),
    }
}

// ---------------------------------------------------------------------------
// !roll
// ---------------------------------------------------------------------------

/// The dice that a spec such as `3d6` names: how many, and their sides.
pub open spec fn dice_of(spec_text: Seq<char>) -> Option<(u32, u32)> {
    let parts = text::pieces(text::str_lowercase(spec_text), 'd');
    if parts.len() != 2 {
        None
    } else {
        match (
            number::unsigned_parsed(parts[0], u32::MAX as nat),
            number::unsigned_parsed(parts[1], u32::MAX as nat),
        ) {
            (Some(n), Some(s)) => Some((n as u32, s as u32)),
            _ => None,
        }
    }
}

/// Reads a spec such as `3d6`.
pub fn parse_dice_spec(spec_text: &str) -> (r: Option<(u32, u32)>)
    ensures
        r == dice_of(spec_text@),
{
    let parts = text::split_char(text::to_lowercase(spec_text).as_str(), 'd');
    let ghost all = text::views(parts@);
    proof {
        assert(all.len() == parts.len());
    }
    if parts.len() != 2 {
        return None;
    }
    proof {
        assert(all[0] == parts@[0]@);
        assert(all[1] == parts@[1]@);
    }
    let count = number::parse_u32(parts[0].as_str());
    let sides = number::parse_u32(parts[1].as_str());
    match (count, sides) {
        (Some(n), Some(s)) => Some((n, s)),
        _ => None,
    }
}

/// The dice that the arguments of `!roll` name: one die of six without any, one of so many sides
/// for a number.
pub open spec fn roll_request(args: Seq<char>) -> Option<(u32, u32)> {
    let a = text::trimmed(args);
    if a.len() == 0 {
        Some((1, 6))
    } else if dice_of(a) is Some {
        dice_of(a)
    } else {
        match number::unsigned_parsed(a, u32::MAX as nat) {
            Some(s) => Some((1, s as u32)),
            None => None,
        }
    }
}

/// Why dice cannot be rolled, if they cannot.
pub open spec fn roll_refusal(request: Option<(u32, u32)>) -> Option<Seq<char>> {
    match request {
        None => Some("Usage: !roll [NdS] — e.g. !roll, !roll 20, !roll 3d6"@),
        Some(dice) => if dice.0 == 0 || dice.0 > 100 {
            Some("⚠️ Roll between 1 and 100 dice."@)
        } else if dice.1 < 2 || dice.1 > 1000 {
            Some("⚠️ Dice must have 2-1000 sides."@)
        } else {
            None
        },
    }
}

/// The dice that `!roll` asks for, or why they cannot be rolled.
pub fn parse_roll(args: &str) -> (r: Result<(u32, u32), String>)
    ensures
        match r {
            Ok(dice) => roll_request(args@) == Some(dice) && roll_refusal(Some(dice)) is None,
            Err(why) => roll_refusal(roll_request(args@)) == Some(why@),
        },
{
    let a = text::trim(args);
    let dice = if a.is_empty() {
        Some((1u32, 6u32))
    } else {
        match parse_dice_spec(a) {
            Some(d) => Some(d),
            None => match number::parse_u32(a) {
                Some(s) => Some((1u32, s)),
                None => None,
            },
        }
    };
    match dice {
        None => Err("Usage: !roll [NdS] — e.g. !roll, !roll 20, !roll 3d6".to_owned()),
        Some((count, sides)) => if count == 0 || count > 100 {
            Err("⚠️ Roll between 1 and 100 dice.".to_owned())
        } else if sides < 2 || sides > 1000 {
            Err("⚠️ Dice must have 2-1000 sides.".to_owned())
        } else {
            Ok((count, sides))
        },
    }
}

/// The sum of rolls.
pub open spec fn total(rolls: Seq<u64>) -> nat
    decreases rolls.len(),
{
    if rolls.len() == 0 {
        0
    } else {
        total(rolls.drop_last()) + rolls.last() as nat
    }
}

/// Numbers in decimal.
pub open spec fn decimals(rolls: Seq<u64>) -> Seq<Seq<char>> {
    rolls.map_values(|n: u64| number::decimal(n as nat))
}

/// What is said of rolls of dice with so many sides.
pub open spec fn roll_text(rolls: Seq<u64>, sides: u32) -> Seq<char> {
    if rolls.len() == 1 {
        "🎲 "@ + number::decimal(total(rolls)) + " (d"@ + number::decimal(sides as nat) + ")"@
    } else {
        "🎲 ["@ + text::joined(decimals(rolls), " + "@) + "] = "@ + number::decimal(total(rolls))
            + " ("@ + number::decimal(rolls.len()) + "d"@ + number::decimal(sides as nat) + ")"@
    }
}

/// Tells what was rolled.
pub fn roll_reply(rolls: &Vec<u64>, sides: u32) -> (r: String)
    ensures
        r@ == roll_text(rolls@, sides),
{
    let mut sum: u128 = 0;
    let mut shown: Vec<String> = Vec::new();
    let mut i: usize = 0;
    proof {
        assert(rolls@.take(0) =~= Seq::empty());
    }
    while i < rolls.len()
        invariant
            i <= rolls.len(),
            shown.len() == i,
            sum == total(rolls@.take(i as int)),
            sum <= i * 0xffff_ffff_ffff_ffff,
            forall|k: int|
                0 <= k < i ==> (#[trigger] shown@[k])@ == number::decimal(rolls@[k] as nat),
        decreases rolls.len() - i,
    {
        proof {
            assert(rolls@.take(i + 1).drop_last() =~= rolls@.take(i as int));
        }
        sum = sum + rolls[i] as u128;
        shown.push(number::show(rolls[i]));
        i = i + 1;
    }
    proof {
        assert(rolls@.take(i as int) =~= rolls@);
        assert(text::views(shown@) =~= decimals(rolls@));
    }
    let all = number::show_wide(sum);
    let d = number::show(sides as u64);
    if rolls.len() == 1 {
        text::cat5("🎲 ", all.as_str(), " (d", d.as_str(), ")")
    } else {
        let mut out = text::cat6(
            "🎲 [",
            text::join(&shown, " + ").as_str(),
            "] = ",
            all.as_str(),
            " (",
            number::show_size(rolls.len()).as_str(),
        );
        out.push_str("d");
        out.push_str(d.as_str());
        out.push_str(")");
        out
    }
}

/// `rolls` are `count` rolls of dice with `sides` sides.
pub open spec fn rolled(rolls: Seq<u64>, count: u32, sides: u32) -> bool {
    rolls.len() == count && forall|i: int|
        0 <= i < rolls.len() ==> 1 <= #[trigger] rolls[i] <= sides
}

fn roll_dice(count: u32, sides: u32) -> (r: Vec<u64>)
    requires
        sides >= 1,
    ensures
        rolled(r@, count, sides),
{
    let mut rolls: Vec<u64> = Vec::new();
    let mut i: u32 = 0;
    while i < count
        invariant
            i <= count,
            sides >= 1,
            rolled(rolls@, i, sides),
        decreases count - i,
    {
        rolls.push(chance::random_between(1, sides as u64));
        i = i + 1;
    }
    rolls
}

/// Answers `!roll`.
pub fn roll_command(args: &str) -> (r: String)
    ensures
        match roll_refusal(roll_request(args@)) {
            Some(why) => r@ == why,
            None => {
                let dice = roll_request(args@)->0;
                exists|rolls: Seq<u64>| #[trigger]
                    rolled(rolls, dice.0, dice.1) && r@ == roll_text(rolls, dice.1)
            },
        },
{
    match parse_roll(args) {
        Err(why) => why,
        Ok((count, sides)) => {
            let rolls = roll_dice(count, sides);
            roll_reply(&rolls, sides)
        },
    }
}

/// The sum of rolls lies between their number and their number times the sides.
pub proof fn law_roll_total_in_range(rolls: Seq<u64>, count: u32, sides: u32)
    requires
        rolled(rolls, count, sides),
    ensures
        count <= total(rolls) <= count * sides,
    decreases rolls.len(),
{
    if rolls.len() > 0 {
        let fewer = (count - 1) as u32;
        assert(rolled(rolls.drop_last(), fewer, sides));
        law_roll_total_in_range(rolls.drop_last(), fewer, sides);
        assert(count * sides == fewer * sides + sides) by (nonlinear_arith)
            requires
                count == fewer + 1,
        ;
    } else {
        assert(count * sides == 0) by (nonlinear_arith)
            requires
                count == 0,
        ;
    }
}

// ---------------------------------------------------------------------------
// !stats
// ---------------------------------------------------------------------------

/// A span in days, hours, minutes and seconds.
pub open spec fn uptime_text(secs: u64) -> Seq<char> {
    if secs >= 86400 {
        number::decimal((secs / 86400) as nat) + "d "@
            + number::decimal(((secs % 86400) / 3600) as nat) + "h "@
            + number::decimal(((secs % 3600) / 60) as nat) + "m"@
    } else if secs >= 3600 {
        number::decimal(((secs % 86400) / 3600) as nat) + "h "@
            + number::decimal(((secs % 3600) / 60) as nat) + "m "@
            + number::decimal((secs % 60) as nat) + "s"@
    } else if secs >= 60 {
        number::decimal(((secs % 3600) / 60) as nat) + "m "@ + number::decimal((secs % 60) as nat)
            + "s"@
    } else {
        number::decimal((secs % 60) as nat) + "s"@
    }
}

/// Writes a span.
pub fn format_uptime(secs: u64) -> (r: String)
    ensures
        r@ == uptime_text(secs),
{
    if secs / 86400 > 0 {
        text::cat6(
            number::show(secs / 86400).as_str(),
            "d ",
            number::show((secs % 86400) / 3600).as_str(),
            "h ",
            number::show((secs % 3600) / 60).as_str(),
            "m",
        )
    } else if (secs % 86400) / 3600 > 0 {
        text::cat6(
            number::show((secs % 86400) / 3600).as_str(),
            "h ",
            number::show((secs % 3600) / 60).as_str(),
            "m ",
            number::show(secs % 60).as_str(),
            "s",
        )
    } else if (secs % 3600) / 60 > 0 {
        text::cat4(
            number::show((secs % 3600) / 60).as_str(),
            "m ",
            number::show(secs % 60).as_str(),
            "s",
        )
    } else {
        text::cat2(number::show(secs % 60).as_str(), "s")
    }
}

/// Answers `!stats`.
pub fn stats_command(uptime_secs: u64, messages: u64, users: usize, version: &str, npub: &str) -> (r:
    String)
    ensures
        r@ == "📊 **Bot Stats**\nUptime: "@ + uptime_text(uptime_secs) + "\nMessages processed: "@
            + number::decimal(messages as nat) + "\nTracked users (rate limiter): "@
            + number::decimal(users as nat) + "\nVersion: v"@ + version@ + "\nnpub: "@ + npub@,
{
    let mut out = text::cat7(
        "📊 **Bot Stats**\nUptime: ",
        format_uptime(uptime_secs).as_str(),
        "\nMessages processed: ",
        number::show(messages).as_str(),
        "\nTracked users (rate limiter): ",
        number::show_size(users).as_str(),
        "\nVersion: v",
    );
    out.push_str(version);
    out.push_str("\nnpub: ");
    out.push_str(npub);
    out
}

// ---------------------------------------------------------------------------
// !weather
// ---------------------------------------------------------------------------

/// Where the weather is asked for.
pub struct Place {
    pub lat: String,
    pub lon: String,
    pub name: String,
}

/// The zipcode that `!weather` names, or how to use it.
pub fn weather_command(args: &str) -> (r: Result<String, String>)
    ensures
        match r {
            Ok(zip) => text::trimmed(args@).len() > 0 && zip@ == text::trimmed(args@),
            Err(usage) => text::trimmed(args@).len() == 0 && usage@
                == "Usage: !weather <zipcode>\nExample: !weather 10001"@,
        },
{
    let zip = text::trim(args);
    if zip.is_empty() {
        Err("Usage: !weather <zipcode>\nExample: !weather 10001".to_owned())
    } else {
        Ok(zip.to_owned())
    }
}

/// The address that a zipcode is looked up at.
pub fn geocode_url(zipcode: &str) -> (r: String)
    ensures
        r@ == "https://nominatim.openstreetmap.org/search?postalcode="@ + zipcode@
            + "&format=json&limit=1&countrycodes=us"@,
{
    text::cat3(
        "https://nominatim.openstreetmap.org/search?postalcode=",
        zipcode,
        "&format=json&limit=1&countrycodes=us",
    )
}

/// A coordinate of a place, or zero where it has none.
pub open spec fn coordinate(place: JsonView, key: Seq<char>) -> Seq<char> {
    match place.text_at(key) {
        Some(s) => if s.len() > 0 {
            s
        } else {
            "0"@
        },
        None => "0"@,
    }
}

/// The name of a place: what comes before the first comma.
pub open spec fn place_name(place: JsonView) -> Seq<char> {
    text::trimmed(
        text::pieces(text::or_else(place.text_at("display_name"@), "Unknown location"@), ',')[0],
    )
}

/// The first place of a lookup.
pub open spec fn first_place(data: JsonView) -> Option<JsonView> {
    match data.items() {
        Some(list) => if list.len() > 0 {
            Some(list[0])
        } else {
            None
        },
        None => None,
    }
}

fn coordinate_of(place: &Json, key: &str) -> (r: String)
    ensures
        r@ == coordinate(place@, key@),
{
    match place.str_at(key) {
        Some(s) => if s.is_empty() {
            "0".to_owned()
        } else {
            s.to_owned()
        },
        None => "0".to_owned(),
    }
}

fn name_of_place(place: &Json) -> (r: String)
    ensures
        r@ == place_name(place@),
{
    let full = text::own_or(place.str_at("display_name"), "Unknown location");
    let parts = text::split_char(full.as_str(), ',');
    let ghost all = text::views(parts@);
    proof {
        text::lemma_pieces_nonempty(full@, ',');
        assert(all.len() == parts.len());
        assert(all[0] == parts@[0]@);
    }
    text::trim(parts[0].as_str()).to_owned()
}

/// The place of a zipcode, given what the lookup answered; else what to tell the user.
pub fn locate(data: Option<&Json>, zipcode: &str) -> (r: Result<Place, String>)
    ensures
        match (data, r) {
            (None, Err(why)) => why@ == "⚠️ Could not look up that zipcode."@,
            (None, Ok(_)) => false,
            (Some(d), Err(why)) => first_place(d@) is None && why@
                == "⚠️ No location found for zipcode "@ + zipcode@ + "."@,
            (Some(d), Ok(p)) => {
                &&& first_place(d@) is Some
                &&& p.lat@ == coordinate(first_place(d@)->0, "lat"@)
                &&& p.lon@ == coordinate(first_place(d@)->0, "lon"@)
                &&& p.name@ == place_name(first_place(d@)->0)
            },
        },
{
    let d = match data {
        Some(d) => d,
        None => {
            return Err("⚠️ Could not look up that zipcode.".to_owned());
        },
    };
    if let Some(list) = d.as_array() {
        let ghost all = json::json_views(list@);
        proof {
            assert(all.len() == list.len());
        }
        if list.len() > 0 {
            let first = &list[0];
            proof {
                assert(all[0] == first@);
            }
            return Ok(
                Place {
                    lat: coordinate_of(first, "lat"),
                    lon: coordinate_of(first, "lon"),
                    name: name_of_place(first),
                },
            );
        }
    }
    Err(text::cat3("⚠️ No location found for zipcode ", zipcode, "."))
}

/// The address of the weather at a place.
pub fn weather_url(lat: &str, lon: &str) -> (r: String)
    ensures
        r@ == "https://api.open-meteo.com/v1/forecast?latitude="@ + lat@ + "&longitude="@ + lon@
            + "&current=temperature_2m,relative_humidity_2m,apparent_temperature,weather_code,wind_speed_10m&temperature_unit=fahrenheit&timezone=auto"@,
{
    text::cat5(
        "https://api.open-meteo.com/v1/forecast?latitude=",
        lat,
        "&longitude=",
        lon,
        "&current=temperature_2m,relative_humidity_2m,apparent_temperature,weather_code,wind_speed_10m&temperature_unit=fahrenheit&timezone=auto",
    )
}

/// What a weather code stands for.
pub open spec fn conditions(code: Option<i64>) -> Seq<char> {
    match code {
        Some(c) => {
            if c == 0 {
                "☀️ Clear sky"@
            } else if c == 1 {
                "🌤️ Mainly clear"@
            } else if c == 2 {
                "⛅ Partly cloudy"@
            } else if c == 3 {
                "☁️ Overcast"@
            } else if c == 45 || c == 48 {
                "🌫️ Fog"@
            } else if c == 51 || c == 53 || c == 55 {
                "🌦️ Drizzle"@
            } else if c == 56 || c == 57 {
                "🌧️ Freezing drizzle"@
            } else if c == 61 || c == 63 || c == 65 {
                "🌧️ Rain"@
            } else if c == 66 || c == 67 {
                "🌧️ Freezing rain"@
            } else if c == 71 || c == 73 || c == 75 {
                "❄️ Snow"@
            } else if c == 77 {
                "🌨️ Snow grains"@
            } else if c == 80 || c == 81 || c == 82 {
                "🌧️ Rain showers"@
            } else if c == 85 || c == 86 {
                "🌨️ Snow showers"@
            } else if c == 95 {
                "⛈️ Thunderstorm"@
            } else if c == 96 || c == 99 {
                "⛈️ Thunderstorm with hail"@
            } else {
                "❓ Unknown"@
            }
        },
        None => "❓ Unknown"@,
    }
}

/// Tells what a WMO weather code stands for.
pub fn weather_code_to_emoji(code: Option<i64>) -> (r: &'static str)
    ensures
        r@ == conditions(code),
{
    match code {
        Some(c) => {
            if c == 0 {
                "☀️ Clear sky"
            } else if c == 1 {
                "🌤️ Mainly clear"
            } else if c == 2 {
                "⛅ Partly cloudy"
            } else if c == 3 {
                "☁️ Overcast"
            } else if c == 45 || c == 48 {
                "🌫️ Fog"
            } else if c == 51 || c == 53 || c == 55 {
                "🌦️ Drizzle"
            } else if c == 56 || c == 57 {
                "🌧️ Freezing drizzle"
            } else if c == 61 || c == 63 || c == 65 {
                "🌧️ Rain"
            } else if c == 66 || c == 67 {
                "🌧️ Freezing rain"
            } else if c == 71 || c == 73 || c == 75 {
                "❄️ Snow"
            } else if c == 77 {
                "🌨️ Snow grains"
            } else if c == 80 || c == 81 || c == 82 {
                "🌧️ Rain showers"
            } else if c == 85 || c == 86 {
                "🌨️ Snow showers"
            } else if c == 95 {
                "⛈️ Thunderstorm"
            } else if c == 96 || c == 99 {
                "⛈️ Thunderstorm with hail"
            } else {
                "❓ Unknown"
            }
        },
        None => "❓ Unknown",
    }
}

/// What is measured, each as far as it is known and as it is shown.
pub struct Measured<'a> {
    pub temperature: Option<&'a str>,
    /// How the temperature feels, where that differs.
    pub feels: Option<&'a str>,
    pub humidity: Option<&'a str>,
    pub wind: Option<&'a str>,
    pub code: Option<i64>,
}

/// The weather for people to read.
pub open spec fn weather_text(place: Seq<char>, zip: Seq<char>, m: Measured) -> Seq<char> {
    text::trimmed(
        "🌤️ **"@ + place + " (ZIP "@ + zip + ")**\n"@ + (match m.temperature {
            Some(t) => "Temperature: "@ + t@ + "°F"@ + (match m.feels {
                Some(f) => " (feels like "@ + f@ + "°F)"@,
                None => ""@,
            }) + "\n"@,
            None => ""@,
        }) + (match m.humidity {
            Some(h) => "Humidity: "@ + h@ + "%\n"@,
            None => ""@,
        }) + (match m.wind {
            Some(w) => "Wind: "@ + w@ + " mph\n"@,
            None => ""@,
        }) + "Conditions: "@ + conditions(m.code),
    )
}

/// Tells the weather at a place, as far as it could be fetched.
pub fn weather_reply(place: &str, zipcode: &str, measured: Option<&Measured>) -> (r: String)
    ensures
        r@ == match measured {
            Some(m) => weather_text(place@, zipcode@, *m),
            None => "⚠️ Could not fetch weather data."@,
        },
{
    let m = match measured {
        Some(m) => m,
        None => {
            return "⚠️ Could not fetch weather data.".to_owned();
        },
    };
    let mut out = text::cat5("🌤️ **", place, " (ZIP ", zipcode, ")**\n");
    let degrees = match m.temperature {
        Some(t) => {
            let feel = match m.feels {
                Some(f) => text::cat3(" (feels like ", f, "°F)"),
                None => "".to_owned(),
            };
            text::cat5("Temperature: ", t, "°F", feel.as_str(), "\n")
        },
        None => "".to_owned(),
    };
    out.push_str(degrees.as_str());
    let humid = match m.humidity {
        Some(h) => text::cat3("Humidity: ", h, "%\n"),
        None => "".to_owned(),
    };
    out.push_str(humid.as_str());
    let windy = match m.wind {
        Some(w) => text::cat3("Wind: ", w, " mph\n"),
        None => "".to_owned(),
    };
    out.push_str(windy.as_str());
    out.push_str("Conditions: ");
    out.push_str(weather_code_to_emoji(m.code));
    text::trim(out.as_str()).to_owned()
}

// ---------------------------------------------------------------------------
// !remind
// ---------------------------------------------------------------------------

/// How many digits a text starts with.
pub open spec fn digits_len(s: Seq<char>) -> int
    decreases s.len(),
{
    if s.len() == 0 || !number::is_digit(s[0]) {
        0
    } else {
        1 + digits_len(s.drop_first())
    }
}

/// How many letters a text starts with.
pub open spec fn letters_len(s: Seq<char>) -> int
    decreases s.len(),
{
    if s.len() == 0 || !text::char_is_alphabetic(s[0]) {
        0
    } else {
        1 + letters_len(s.drop_first())
    }
}

proof fn lemma_digits_len(s: Seq<char>, i: int)
    requires
        0 <= i <= s.len(),
        forall|k: int| 0 <= k < i ==> number::is_digit(#[trigger] s[k]),
        i == s.len() || !number::is_digit(s[i]),
    ensures
        digits_len(s) == i,
    decreases s.len(),
{
    if i > 0 {
        let t = s.drop_first();
        assert forall|k: int| 0 <= k < i - 1 implies number::is_digit(#[trigger] t[k]) by {
            assert(t[k] == s[k + 1]);
        }
        assert(number::is_digit(s[0]));
        lemma_digits_len(t, i - 1);
    }
}

proof fn lemma_letters_len(s: Seq<char>, i: int)
    requires
        0 <= i <= s.len(),
        forall|k: int| 0 <= k < i ==> text::char_is_alphabetic(#[trigger] s[k]),
        i == s.len() || !text::char_is_alphabetic(s[i]),
    ensures
        letters_len(s) == i,
    decreases s.len(),
{
    if i > 0 {
        let t = s.drop_first();
        assert forall|k: int| 0 <= k < i - 1 implies text::char_is_alphabetic(#[trigger] t[k]) by {
            assert(t[k] == s[k + 1]);
        }
        assert(text::char_is_alphabetic(s[0]));
        lemma_letters_len(t, i - 1);
    }
}

fn split_digits<'a>(s: &'a str) -> (r: (&'a str, &'a str))
    ensures
        0 <= digits_len(s@) <= s@.len(),
        r.0@ == s@.take(digits_len(s@)),
        r.1@ == s@.skip(digits_len(s@)),
{
    let chars = text::chars_of(s);
    let mut i: usize = 0;
    while i < chars.len() && '0' <= chars[i] && chars[i] <= '9'
        invariant
            i <= chars.len(),
            chars@ == s@,
            forall|k: int| 0 <= k < i ==> number::is_digit(#[trigger] s@[k]),
        decreases chars.len() - i,
    {
        i = i + 1;
    }
    proof {
        lemma_digits_len(s@, i as int);
    }
    let head = s.substring_char(0, i);
    let tail = s.substring_char(i, chars.len());
    proof {
        assert(head@ =~= s@.take(i as int));
        assert(tail@ =~= s@.skip(i as int));
    }
    (head, tail)
}

fn split_letters<'a>(s: &'a str) -> (r: (&'a str, &'a str))
    ensures
        0 <= letters_len(s@) <= s@.len(),
        r.0@ == s@.take(letters_len(s@)),
        r.1@ == s@.skip(letters_len(s@)),
{
    let chars = text::chars_of(s);
    let mut i: usize = 0;
    while i < chars.len() && text::is_alphabetic(chars[i])
        invariant
            i <= chars.len(),
            chars@ == s@,
            forall|k: int| 0 <= k < i ==> text::char_is_alphabetic(#[trigger] s@[k]),
        decreases chars.len() - i,
    {
        i = i + 1;
    }
    proof {
        lemma_letters_len(s@, i as int);
    }
    let head = s.substring_char(0, i);
    let tail = s.substring_char(i, chars.len());
    proof {
        assert(head@ =~= s@.take(i as int));
        assert(tail@ =~= s@.skip(i as int));
    }
    (head, tail)
}

/// The unit of time that a word stands for.
pub open spec fn unit_name(unit: Seq<char>) -> Option<Seq<char>> {
    if unit == "m"@ || unit == "min"@ || unit == "mins"@ || unit
        == "minute"@ || unit == "minutes"@ {
        Some("minute"@)
    } else if unit == "h"@ || unit == "hr"@ || unit == "hrs"@ || unit
        == "hour"@ || unit == "hours"@ {
        Some("hour"@)
    } else if unit == "d"@ || unit == "day"@ || unit == "days"@ {
        Some("day"@)
    } else {
        None
    }
}

fn name_of_unit(unit: &str) -> (r: Option<&'static str>)
    ensures
        text::opt_str_view(r) == unit_name(unit@),
{
    if text::same(unit, "m") || text::same(unit, "min") || text::same(unit, "mins")
        || text::same(unit, "minute")
        || text::same(unit, "minutes") {
        return Some("minute");
    }
    if text::same(unit, "h") || text::same(unit, "hr") || text::same(unit, "hrs")
        || text::same(unit, "hour")
        || text::same(unit, "hours") {
        return Some("hour");
    }
    if text::same(unit, "d") || text::same(unit, "day") || text::same(unit, "days") {
        return Some("day");
    }
    None
}

/// So many of a unit.
pub open spec fn span_text(n: nat, unit: Seq<char>) -> Seq<char> {
    number::decimal(n) + " "@ + unit + (if n == 1 {
        ""@
    } else {
        "s"@
    })
}

/// The span and the message of a reminder such as `30m Call mom` or `2 hours Check oven`.
pub open spec fn reminder_of(input: Seq<char>) -> Option<(Seq<char>, Seq<char>)> {
    let s = text::trimmed(input);
    let digits = s.take(digits_len(s));
    let after = text::trimmed_start(s.skip(digits_len(s)));
    let unit = text::str_lowercase(after.take(letters_len(after)));
    if digits_len(s) == 0 || letters_len(after) == 0 {
        None
    } else {
        match (number::unsigned_parsed(digits, u64::MAX as nat), unit_name(unit)) {
            (Some(n), Some(name)) => Some(
                (span_text(n, name), text::trimmed(after.skip(letters_len(after)))),
            ),
            _ => None,
        }
    }
}

/// Reads a reminder: the span for people to read, and the message.
pub fn parse_reminder_input(input: &str) -> (r: Option<(String, String)>)
    ensures
        match r {
            Some(p) => reminder_of(input@) == Some((p.0@, p.1@)),
            None => reminder_of(input@) is None,
        },
{
    let s = text::trim(input);
    let (digits, rest) = split_digits(s);
    if digits.is_empty() {
        return None;
    }
    let n: u64 = match number::parse_u64(digits) {
        Some(n) => n,
        None => {
            return None;
        },
    };
    let (word, tail) = split_letters(text::trim_start(rest));
    if word.is_empty() {
        return None;
    }
    match name_of_unit(text::to_lowercase(word).as_str()) {
        Some(name) => {
            let plural = if n == 1 {
                ""
            } else {
                "s"
            };
            let span = text::cat4(number::show(n).as_str(), " ", name, plural);
            Some((span, text::trim(tail).to_owned()))
        },
        None => None,
    }
}

/// Answers `!remind`.
pub fn remind_command(args: &str) -> (r: String)
    ensures
        r@ == if text::trimmed(args@).len() == 0 {
            "Usage: !remind <time> <message>\nExamples: !remind 30m Call mom, !remind 2h Check oven, !remind 1d Pay bills"@
        } else {
            match reminder_of(text::trimmed(args@)) {
                Some(p) => if p.1.len() == 0 {
                    "⚠️ Please provide a message after the time.\nExample: !remind 30m Call mom"@
                } else {
                    "⏰ Reminder set: "@ + p.1 + " (in "@ + p.0 + ")"@
                },
                None => "⚠️ Could not parse time. Use: 30m, 2h, 1d, 30 minutes, 2 hours, 1 day\nExample: !remind 30m Call mom"@,
            }
        },
{
    let a = text::trim(args);
    if a.is_empty() {
        return "Usage: !remind <time> <message>\nExamples: !remind 30m Call mom, !remind 2h Check oven, !remind 1d Pay bills".to_owned();
    }
    match parse_reminder_input(a) {
        Some((span, message)) => if message.as_str().is_empty() {
            "⚠️ Please provide a message after the time.\nExample: !remind 30m Call mom".to_owned()
        } else {
            text::cat5("⏰ Reminder set: ", message.as_str(), " (in ", span.as_str(), ")")
        },
        None => "⚠️ Could not parse time. Use: 30m, 2h, 1d, 30 minutes, 2 hours, 1 day\nExample: !remind 30m Call mom".to_owned(),
    }
}

// ---------------------------------------------------------------------------
// !poll
// ---------------------------------------------------------------------------

/// The sign for the number of an option.
pub open spec fn number_sign(n: int) -> Seq<char> {
    if n == 1 {
        "1⃣"@
    } else if n == 2 {
        "2⃣"@
    } else if n == 3 {
        "3⃣"@
    } else if n == 4 {
        "4⃣"@
    } else if n == 5 {
        "5⃣"@
    } else if n == 6 {
        "6⃣"@
    } else if n == 7 {
        "7⃣"@
    } else if n == 8 {
        "8⃣"@
    } else if n == 9 {
        "9⃣"@
    } else if n == 10 {
        "🔟"@
    } else {
        "❓"@
    }
}

/// The sign for a number from one to ten.
pub fn number_emoji(n: usize) -> (r: &'static str)
    ensures
        r@ == number_sign(n as int),
{
    if n == 1 {
        "1⃣"
    } else if n == 2 {
        "2⃣"
    } else if n == 3 {
        "3⃣"
    } else if n == 4 {
        "4⃣"
    } else if n == 5 {
        "5⃣"
    } else if n == 6 {
        "6⃣"
    } else if n == 7 {
        "7⃣"
    } else if n == 8 {
        "8⃣"
    } else if n == 9 {
        "9⃣"
    } else if n == 10 {
        "🔟"
    } else {
        "❓"
    }
}

/// The first `count` options of a poll, a line each.
pub open spec fn option_lines(parts: Seq<Seq<char>>, count: int) -> Seq<char>
    decreases count,
{
    if count <= 0 {
        Seq::empty()
    } else {
        option_lines(parts, count - 1) + ("  "@ + number_sign(count) + "️ "@ + parts[count]
            + "\n"@)
    }
}

/// The reply to `!poll`, given the question and the options.
pub open spec fn poll_text(parts: Seq<Seq<char>>) -> Seq<char> {
    if parts.len() < 3 {
        "⚠️ Need a question and at least 2 options.\nExample: !poll Pizza? | Yes | No"@
    } else {
        text::trimmed(
            "📊 **"@ + parts[0] + "**\n"@ + option_lines(parts, parts.len() - 1)
                + "\nReact to vote!"@,
        )
    }
}

fn show_options(parts: &Vec<String>) -> (r: String)
    requires
        parts.len() >= 1,
    ensures
        r@ == option_lines(text::views(parts@), parts@.len() - 1),
{
    let ghost all = text::views(parts@);
    let mut out = String::new();
    let mut i: usize = 0;
    while i + 1 < parts.len()
        invariant
            i < parts.len(),
            all == text::views(parts@),
            out@ == option_lines(all, i as int),
        decreases parts.len() - i,
    {
        i = i + 1;
        let line = text::cat5("  ", number_emoji(i), "️ ", parts[i].as_str(), "\n");
        proof {
            assert(all[i as int] == parts@[i as int]@);
        }
        out.push_str(line.as_str());
    }
    out
}

/// Answers `!poll`.
pub fn poll_command(args: &str) -> (r: String)
    ensures
        r@ == if text::trimmed(args@).len() == 0 {
            "Usage: !poll <question> | option1 | option2 | ...\nExample: !poll Pizza? | Yes | No | Maybe"@
        } else {
            poll_text(text::nonblank(text::pieces(text::trimmed(args@), '|')))
        },
{
    let a = text::trim(args);
    if a.is_empty() {
        return "Usage: !poll <question> | option1 | option2 | ...\nExample: !poll Pizza? | Yes | No | Maybe".to_owned();
    }
    let parts = text::keep_nonblank(&text::split_char(a, '|'));
    let ghost all = text::views(parts@);
    proof {
        assert(all.len() == parts.len());
    }
    if parts.len() < 3 {
        return "⚠️ Need a question and at least 2 options.\nExample: !poll Pizza? | Yes | No".to_owned();
    }
    proof {
        assert(all[0] == parts@[0]@);
    }
    let out = text::cat5(
        "📊 **",
        parts[0].as_str(),
        "**\n",
        show_options(&parts).as_str(),
        "\nReact to vote!",
    );
    text::trim(out.as_str()).to_owned()
}

// ---------------------------------------------------------------------------
// !translate
// ---------------------------------------------------------------------------

/// What `!translate` asks for: the language and the text; else what to tell the user.
pub open spec fn translation_request(args: Seq<char>) -> Result<(Seq<char>, Seq<char>), Seq<char>> {
    let a = text::trimmed(args);
    if a.len() == 0 {
        Err("Usage: !translate <language> <text>\nExample: !translate es Hello world"@)
    } else {
        match text::tail_words(a) {
            None => Err(
                "⚠️ Provide a language code and text.\nExample: !translate es Hello world"@,
            ),
            Some(rest) => if text::trimmed(rest).len() == 0 {
                Err("⚠️ Provide text to translate.\nExample: !translate es Hello world"@)
            } else {
                Ok((text::trimmed(text::head_word(a)), text::trimmed(rest)))
            },
        }
    }
}

/// Reads the arguments of `!translate`.
pub fn translate_command(args: &str) -> (r: Result<(String, String), String>)
    ensures
        match (translation_request(args@), r) {
            (Ok(want), Ok(got)) => want == (got.0@, got.1@),
            (Err(want), Err(got)) => want == got@,
            _ => false,
        },
{
    let a = text::trim(args);
    if a.is_empty() {
        return Err(
            "Usage: !translate <language> <text>\nExample: !translate es Hello world".to_owned(),
        );
    }
    let (head, tail) = text::split_word(a);
    match tail {
        None => Err(
            "⚠️ Provide a language code and text.\nExample: !translate es Hello world".to_owned(),
        ),
        Some(rest) => {
            let what = text::trim(rest);
            if what.is_empty() {
                Err(
                    "⚠️ Provide text to translate.\nExample: !translate es Hello world".to_owned(),
                )
            } else {
                Ok((text::trim(head).to_owned(), what.to_owned()))
            }
        },
    }
}

/// The address that a text is translated at.
pub fn translate_url(lang: &str, what: &str) -> (r: String)
    ensures
        r@ == "https://api.mymemory.translated.net/get?q="@ + url::percent_encoded(what@)
            + "&langpair=en|"@ + url::percent_encoded(lang@),
{
    text::cat4(
        "https://api.mymemory.translated.net/get?q=",
        url::url_encode(what).as_str(),
        "&langpair=en|",
        url::url_encode(lang).as_str(),
    )
}

/// The reply with the translation, where the service answered.
pub fn translate_reply(lang: &str, data: Option<&Json>) -> (r: String)
    ensures
        r@ == match data {
            Some(d) => "🌍 (EN → "@ + text::str_uppercase(lang@) + "): "@ + text::or_else(
                d@.at("responseData"@).text_at("translatedText"@),
                "Could not parse translation."@,
            ),
            None => "⚠️ Could not translate text right now."@,
        },
{
    match data {
        Some(d) => text::cat4(
            "🌍 (EN → ",
            text::to_uppercase(lang).as_str(),
            "): ",
            text::own_or(
                d.str_at2("responseData", "translatedText"),
                "Could not parse translation.",
            ).as_str(),
        ),
        None => "⚠️ Could not translate text right now.".to_owned(),
    }
}

// ---------------------------------------------------------------------------
// !define
// ---------------------------------------------------------------------------

/// The word that `!define` names, or how to use it.
pub fn define_command(args: &str) -> (r: Result<String, String>)
    ensures
        match r {
            Ok(word) => text::trimmed(args@).len() > 0 && word@ == text::trimmed(args@),
            Err(usage) => text::trimmed(args@).len() == 0 && usage@
                == "Usage: !define <word>\nExample: !define serendipity"@,
        },
{
    let word = text::trim(args);
    if word.is_empty() {
        Err("Usage: !define <word>\nExample: !define serendipity".to_owned())
    } else {
        Ok(word.to_owned())
    }
}

/// The address that a word is looked up at.
pub fn define_url(word: &str) -> (r: String)
    ensures
        r@ == "https://api.dictionaryapi.dev/api/v2/entries/en/"@ + url::percent_encoded(word@),
{
    text::cat2(
        "https://api.dictionaryapi.dev/api/v2/entries/en/",
        url::url_encode(word).as_str(),
    )
}

/// The definitions with a part of speech, a line each.
pub open spec fn definition_lines(pos: Seq<char>, defs: Seq<JsonView>) -> Seq<Seq<char>>
    decreases defs.len(),
{
    if defs.len() == 0 {
        Seq::empty()
    } else {
        match defs.last().text_at("definition"@) {
            Some(d) => definition_lines(pos, defs.drop_last()).push(
                "  *("@ + pos + ")* "@ + d + "\n"@,
            ),
            None => definition_lines(pos, defs.drop_last()),
        }
    }
}

/// The definitions of a meaning, a line each.
pub open spec fn meaning_lines(m: JsonView) -> Seq<Seq<char>> {
    match m.at("definitions"@).items() {
        Some(defs) => definition_lines(text::or_else(m.text_at("partOfSpeech"@), "?"@), defs),
        None => Seq::empty(),
    }
}

/// The definitions of all meanings, a line each.
pub open spec fn all_meanings(list: Seq<JsonView>) -> Seq<Seq<char>>
    decreases list.len(),
{
    if list.len() == 0 {
        Seq::empty()
    } else {
        all_meanings(list.drop_last()) + meaning_lines(list.last())
    }
}

/// The first `count` lines.
pub open spec fn first_lines(lines: Seq<Seq<char>>, count: int) -> Seq<char>
    decreases count,
{
    if count <= 0 {
        Seq::empty()
    } else {
        first_lines(lines, count - 1) + lines[count - 1]
    }
}

/// The definitions of an entry.
pub open spec fn entry_lines(e: JsonView) -> Seq<Seq<char>> {
    match e.at("meanings"@).items() {
        Some(list) => all_meanings(list),
        None => Seq::empty(),
    }
}

/// The definitions that are shown: three at most.
pub open spec fn entry_text(word: Seq<char>, e: JsonView) -> Seq<char> {
    let phonetic = text::or_else(e.text_at("phonetic"@), ""@);
    let lines = entry_lines(e);
    text::trimmed(
        "📖 **"@ + word + "**"@ + (if phonetic.len() > 0 {
            " "@ + phonetic
        } else {
            ""@
        }) + "\n"@ + (if lines.len() == 0 {
            "  No definitions available."@
        } else {
            first_lines(
                lines,
                if lines.len() < 3 {
                    lines.len() as int
                } else {
                    3
                },
            )
        }),
    )
}

fn add_definitions(lines: &mut Vec<String>, pos: &str, defs: &Vec<Json>)
    ensures
        text::views(final(lines)@) == text::views(old(lines)@) + definition_lines(
            pos@,
            json::json_views(defs@),
        ),
{
    let ghost before = text::views(lines@);
    let ghost all = json::json_views(defs@);
    let mut i: usize = 0;
    proof {
        assert(all.take(0) =~= Seq::empty());
        assert(before =~= before + definition_lines(pos@, all.take(0)));
    }
    while i < defs.len()
        invariant
            i <= defs.len(),
            all == json::json_views(defs@),
            text::views(lines@) == before + definition_lines(pos@, all.take(i as int)),
        decreases defs.len() - i,
    {
        let ghost so_far = definition_lines(pos@, all.take(i as int));
        let ghost seen = text::views(lines@);
        proof {
            assert(all.take(i + 1).drop_last() =~= all.take(i as int));
            assert(all.take(i + 1).last() == defs@[i as int]@);
        }
        if let Some(d) = defs[i].str_at("definition") {
            let line = text::cat5("  *(", pos, ")* ", d, "\n");
            let ghost written = line@;
            lines.push(line);
            proof {
                assert(text::views(lines@) =~= seen.push(written));
                assert(seen.push(written) =~= before + so_far.push(written));
            }
        }
        i = i + 1;
    }
    proof {
        assert(all.take(i as int) =~= all);
    }
}

fn add_meaning(lines: &mut Vec<String>, m: &Json)
    ensures
        text::views(final(lines)@) == text::views(old(lines)@) + meaning_lines(m@),
{
    let ghost before = text::views(lines@);
    let pos = text::own_or(m.str_at("partOfSpeech"), "?");
    if let Some(value) = m.get("definitions") {
        if let Some(defs) = value.as_array() {
            add_definitions(lines, pos.as_str(), defs);
            return;
        }
    }
    proof {
        assert(before =~= before + meaning_lines(m@));
    }
}

fn lines_of_entry(e: &Json) -> (r: Vec<String>)
    ensures
        text::views(r@) == entry_lines(e@),
{
    let mut lines: Vec<String> = Vec::new();
    proof {
        assert(text::views(lines@) =~= Seq::empty());
    }
    if let Some(value) = e.get("meanings") {
        if let Some(list) = value.as_array() {
            let ghost all = json::json_views(list@);
            let mut i: usize = 0;
            proof {
                assert(all.take(0) =~= Seq::empty());
            }
            while i < list.len()
                invariant
                    i <= list.len(),
                    all == json::json_views(list@),
                    text::views(lines@) == all_meanings(all.take(i as int)),
                decreases list.len() - i,
            {
                proof {
                    assert(all.take(i + 1).drop_last() =~= all.take(i as int));
                    assert(all.take(i + 1).last() == list@[i as int]@);
                }
                add_meaning(&mut lines, &list[i]);
                i = i + 1;
            }
            proof {
                assert(all.take(i as int) =~= all);
            }
        }
    }
    lines
}

fn show_entry(word: &str, e: &Json) -> (r: String)
    ensures
        r@ == entry_text(word@, e@),
{
    let phonetic = text::own_or(e.str_at("phonetic"), "");
    let sound = if phonetic.as_str().is_empty() {
        "".to_owned()
    } else {
        text::cat2(" ", phonetic.as_str())
    };
    let lines = lines_of_entry(e);
    let ghost all = text::views(lines@);
    proof {
        assert(all.len() == lines.len());
    }
    let mut body = String::new();
    if lines.len() == 0 {
        body = "  No definitions available.".to_owned();
    } else {
        let mut i: usize = 0;
        while i < lines.len() && i < 3
            invariant
                i <= lines.len(),
                i <= 3,
                all == text::views(lines@),
                body@ == first_lines(all, i as int),
            decreases lines.len() - i,
        {
            proof {
                assert(all[i as int] == lines@[i as int]@);
            }
            body.push_str(lines[i].as_str());
            i = i + 1;
        }
    }
    let out = text::cat6("📖 **", word, "**", sound.as_str(), "\n", body.as_str());
    text::trim(out.as_str()).to_owned()
}

/// The reply with the definitions of a word, where the service answered.
pub fn define_reply(word: &str, data: Option<&Json>) -> (r: String)
    ensures
        r@ == match data {
            Some(d) => match first_place(d@) {
                Some(e) => entry_text(word@, e),
                None => "⚠️ No definition found for \""@ + word@ + "\"."@,
            },
            None => "⚠️ No definition found for \""@ + word@ + "\"."@,
        },
{
    if let Some(d) = data {
        if let Some(list) = d.as_array() {
            let ghost all = json::json_views(list@);
            proof {
                assert(all.len() == list.len());
            }
            if list.len() > 0 {
                proof {
                    assert(all[0] == list@[0]@);
                }
                return show_entry(word, &list[0]);
            }
        }
    }
    text::cat3("⚠️ No definition found for \"", word, "\".")
}

// ---------------------------------------------------------------------------
// !quote, !joke, !fact, !meme and !shorten
// ---------------------------------------------------------------------------

/// The address of a quote.
pub fn quote_url() -> (r: &'static str)
    ensures
        r@ == "https://api.quotable.io/random"@,
{
    "https://api.quotable.io/random"
}

/// The reply with a quote, where the service answered.
pub fn quote_command(data: Option<&Json>) -> (r: String)
    ensures
        r@ == match data {
            Some(d) => "💬 \""@ + text::or_else(d@.text_at("content"@), "..."@) + "\" — "@
                + text::or_else(d@.text_at("author"@), "Unknown"@),
            None => "⚠️ Could not fetch a quote right now."@,
        },
{
    match data {
        Some(d) => text::cat4(
            "💬 \"",
            text::own_or(d.str_at("content"), "...").as_str(),
            "\" — ",
            text::own_or(d.str_at("author"), "Unknown").as_str(),
        ),
        None => "⚠️ Could not fetch a quote right now.".to_owned(),
    }
}

/// How a joke was fetched.
pub enum Fetched<'a> {
    /// The service did not answer.
    Failed,
    /// Its answer was no JSON.
    Unreadable,
    Data(&'a Json),
}

/// The address of a joke.
pub fn joke_url() -> (r: &'static str)
    ensures
        r@ == "https://icanhazdadjoke.com/"@,
{
    "https://icanhazdadjoke.com/"
}

/// The reply with a joke.
pub fn joke_command(fetched: Fetched) -> (r: String)
    ensures
        r@ == match fetched {
            Fetched::Failed => "⚠️ Could not fetch a joke right now."@,
            Fetched::Unreadable => "⚠️ Could not parse joke response."@,
            Fetched::Data(d) => "😄 "@ + text::or_else(
                d@.text_at("joke"@),
                "Could not parse joke."@,
            ),
        },
{
    match fetched {
        Fetched::Failed => "⚠️ Could not fetch a joke right now.".to_owned(),
        Fetched::Unreadable => "⚠️ Could not parse joke response.".to_owned(),
        Fetched::Data(d) => text::cat2(
            "😄 ",
            text::own_or(d.str_at("joke"), "Could not parse joke.").as_str(),
        ),
    }
}

/// The address of a fact.
pub fn fact_url() -> (r: &'static str)
    ensures
        r@ == "https://uselessfacts.jsph.pl/api/v2/facts/random?language=en"@,
{
    "https://uselessfacts.jsph.pl/api/v2/facts/random?language=en"
}

/// The reply with a fact, where the service answered.
pub fn fact_command(data: Option<&Json>) -> (r: String)
    ensures
        r@ == match data {
            Some(d) => "🧠 "@ + text::or_else(d@.text_at("text"@), "Could not parse fact."@),
            None => "⚠️ Could not fetch a fact right now."@,
        },
{
    match data {
        Some(d) => text::cat2(
            "🧠 ",
            text::own_or(d.str_at("text"), "Could not parse fact.").as_str(),
        ),
        None => "⚠️ Could not fetch a fact right now.".to_owned(),
    }
}

/// The address of a meme.
pub fn meme_url() -> (r: &'static str)
    ensures
        r@ == "https://meme-api.com/gimme"@,
{
    "https://meme-api.com/gimme"
}

/// A text between two others, or nothing where it is empty.
pub open spec fn around(head: Seq<char>, s: Seq<char>, tail: Seq<char>) -> Seq<char> {
    if s.len() == 0 {
        ""@
    } else {
        head + s + tail
    }
}

fn wrap(head: &str, s: &str, tail: &str) -> (r: String)
    ensures
        r@ == around(head@, s@, tail@),
{
    if s.is_empty() {
        "".to_owned()
    } else {
        text::cat3(head, s, tail)
    }
}

/// The reply with a meme, where the service answered.
pub fn meme_command(data: Option<&Json>) -> (r: String)
    ensures
        r@ == match data {
            Some(d) => "🤣 **"@ + text::or_else(d@.text_at("title"@), "A meme"@) + "**"@ + around(
                " (r/"@,
                text::or_else(d@.text_at("subreddit"@), ""@),
                ")"@,
            ) + around("\n"@, text::or_else(d@.text_at("url"@), ""@), ""@),
            None => "⚠️ Could not fetch a meme right now."@,
        },
{
    match data {
        Some(d) => text::cat5(
            "🤣 **",
            text::own_or(d.str_at("title"), "A meme").as_str(),
            "**",
            wrap(" (r/", text::own_or(d.str_at("subreddit"), "").as_str(), ")").as_str(),
            wrap("\n", text::own_or(d.str_at("url"), "").as_str(), "").as_str(),
        ),
        None => "⚠️ Could not fetch a meme right now.".to_owned(),
    }
}

/// Why an address cannot be shortened, if it cannot.
pub open spec fn shorten_refusal(url: Seq<char>) -> Option<Seq<char>> {
    if url.len() == 0 {
        Some("Usage: !shorten <url>\nExample: !shorten https://example.com/very/long/url"@)
    } else if !"http://"@.is_prefix_of(url) && !"https://"@.is_prefix_of(url) {
        Some("⚠️ URL must start with http:// or https://"@)
    } else {
        None
    }
}

/// The address at which `!shorten` shortens one, or what to tell the user.
pub fn shorten_command(args: &str) -> (r: Result<String, String>)
    ensures
        match r {
            Ok(api) => shorten_refusal(text::trimmed(args@)) is None && api@
                == "https://is.gd/create.php?format=json&url="@ + url::percent_encoded(
                text::trimmed(args@),
            ),
            Err(why) => shorten_refusal(text::trimmed(args@)) == Some(why@),
        },
{
    let long = text::trim(args);
    if long.is_empty() {
        return Err(
            "Usage: !shorten <url>\nExample: !shorten https://example.com/very/long/url".to_owned(),
        );
    }
    if !text::starts_with(long, "http://") && !text::starts_with(long, "https://") {
        return Err("⚠️ URL must start with http:// or https://".to_owned());
    }
    Ok(text::cat2("https://is.gd/create.php?format=json&url=", url::url_encode(long).as_str()))
}

/// The reply with a short address, where the service answered.
pub fn shorten_reply(data: Option<&Json>) -> (r: String)
    ensures
        r@ == match data {
            Some(d) => match d@.text_at("errormessage"@) {
                Some(e) => "⚠️ "@ + e,
                None => "🔗 "@ + text::or_else(
                    d@.text_at("shorturl"@),
                    "Could not parse response."@,
                ),
            },
            None => "⚠️ Could not shorten URL right now."@,
        },
{
    match data {
        Some(d) => match d.str_at("errormessage") {
            Some(e) => text::cat2("⚠️ ", e),
            None => text::cat2(
                "🔗 ",
                text::own_or(d.str_at("shorturl"), "Could not parse response.").as_str(),
            ),
        },
        None => "⚠️ Could not shorten URL right now.".to_owned(),
    }
}

} // verus!
