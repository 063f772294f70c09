//! Moderation commands.

use vstd::prelude::*;
use crate::json::Json;
use crate::{clock, handlers, json, number, text};

verus! {

// ---------------------------------------------------------------------------
// Actions on members
// ---------------------------------------------------------------------------

/// What is done to a member.
#[derive(Debug, Clone, Copy, PartialEq, Eq, Structural)]
pub enum MemberAction {
    Kick,
    Ban,
    Unban,
    GrantMod,
    RevokeMod,
}

/// How to use the command of an action.
pub open spec fn usage(what: MemberAction) -> Seq<char> {
    match what {
        MemberAction::Kick => "Usage: !kick <npub>\nExample: !kick nostr:npub1abc...  OR  !kick npub1abc..."@,
        MemberAction::Ban => "Usage: !ban <npub>\nExample: !ban nostr:npub1abc...  OR  !ban npub1abc..."@,
        MemberAction::Unban => "Usage: !unban <npub>\nExample: !unban nostr:npub1abc...  OR  !unban npub1abc..."@,
        MemberAction::GrantMod => "Usage: !grantmod <npub>\nExample: !grantmod nostr:npub1abc...  OR  !grantmod npub1abc..."@,
        MemberAction::RevokeMod => "Usage: !revokemod <npub>\nExample: !revokemod nostr:npub1abc...  OR  !revokemod npub1abc..."@,
    }
}

fn usage_of(what: MemberAction) -> (r: &'static str)
    ensures
        r@ == usage(what),
{
    match what {
        MemberAction::Kick => "Usage: !kick <npub>\nExample: !kick nostr:npub1abc...  OR  !kick npub1abc...",
        MemberAction::Ban => "Usage: !ban <npub>\nExample: !ban nostr:npub1abc...  OR  !ban npub1abc...",
        MemberAction::Unban => "Usage: !unban <npub>\nExample: !unban nostr:npub1abc...  OR  !unban npub1abc...",
        MemberAction::GrantMod => "Usage: !grantmod <npub>\nExample: !grantmod nostr:npub1abc...  OR  !grantmod npub1abc...",
        MemberAction::RevokeMod => "Usage: !revokemod <npub>\nExample: !revokemod nostr:npub1abc...  OR  !revokemod npub1abc...",
    }
}

/// What is said of a name that is no npub.
pub open spec fn no_npub() -> Seq<char> {
    "⚠️ That doesn't look like a valid npub. Use npub1... or nostr:npub1..."@
}

fn invalid_npub() -> (r: String)
    ensures
        r@ == no_npub(),
{
    "⚠️ That doesn't look like a valid npub. Use npub1... or nostr:npub1...".to_owned()
}

/// What the bot says where it is to act on itself, if it says anything.
pub open spec fn self_refusal(what: MemberAction) -> Option<Seq<char>> {
    match what {
        MemberAction::Kick => Some("⚠️ I can't kick myself!"@),
        MemberAction::Ban => Some("⚠️ I can't ban myself!"@),
        _ => None,
    }
}

/// Why nothing is done to the member that the arguments name, if nothing is.
pub open spec fn request_refusal(
    what: MemberAction,
    args: Seq<char>,
    in_community: bool,
    bot: Seq<char>,
) -> Option<Seq<char>> {
    let npub = handlers::plain_npub(args);
    if npub.len() == 0 {
        Some(usage(what))
    } else if !"npub1"@.is_prefix_of(npub) {
        Some(no_npub())
    } else if !in_community {
        Some(handlers::no_community())
    } else if npub == bot {
        self_refusal(what)
    } else {
        None
    }
}

/// The member that a command names, or why nothing is done.
pub fn named_member(what: MemberAction, args: &str, in_community: bool, bot_npub: &str) -> (r: Result<
    String,
    String,
>)
    ensures
        match r {
            Ok(npub) => npub@ == handlers::plain_npub(args@) && request_refusal(
                what,
                args@,
                in_community,
                bot_npub@,
            ) is None,
            Err(why) => request_refusal(what, args@, in_community, bot_npub@) == Some(why@),
        },
{
    let npub = handlers::normalize_npub(args);
    if npub.as_str().is_empty() {
        return Err(usage_of(what).to_owned());
    }
    if !text::starts_with(npub.as_str(), "npub1") {
        return Err(invalid_npub());
    }
    if !in_community {
        return Err(handlers::outside_community());
    }
    if text::same(npub.as_str(), bot_npub) {
        match what {
            MemberAction::Kick => {
                return Err("⚠️ I can't kick myself!".to_owned());
            },
            MemberAction::Ban => {
                return Err("⚠️ I can't ban myself!".to_owned());
            },
            _ => {},
        }
    }
    Ok(npub)
}

/// Why nothing is done to a member of that standing, if nothing is.
pub open spec fn standing_refusal(
    what: MemberAction,
    npub: Seq<char>,
    is_owner: bool,
    is_admin: bool,
) -> Option<Seq<char>> {
    match what {
        MemberAction::Kick => if is_owner {
            Some("⚠️ I can't kick the community owner."@)
        } else {
            None
        },
        MemberAction::Ban => if is_owner {
            Some("⚠️ I can't ban the community owner."@)
        } else {
            None
        },
        MemberAction::Unban => None,
        MemberAction::GrantMod => if is_admin {
            Some("ℹ️ "@ + npub + " is already an admin."@)
        } else {
            None
        },
        MemberAction::RevokeMod => if is_owner {
            Some("⚠️ Cannot revoke admin from the community owner."@)
        } else if !is_admin {
            Some("ℹ️ "@ + npub + " is not an admin."@)
        } else {
            None
        },
    }
}

/// Why nothing is done to a member of that standing, if nothing is.
pub fn refuse_standing(what: MemberAction, npub: &str, is_owner: bool, is_admin: bool) -> (r: Option<
    String,
>)
    ensures
        text::opt_view(r) == standing_refusal(what, npub@, is_owner, is_admin),
{
    match what {
        MemberAction::Kick => if is_owner {
            Some("⚠️ I can't kick the community owner.".to_owned())
        } else {
            None
        },
        MemberAction::Ban => if is_owner {
            Some("⚠️ I can't ban the community owner.".to_owned())
        } else {
            None
        },
        MemberAction::Unban => None,
        MemberAction::GrantMod => if is_admin {
            Some(text::cat3("ℹ️ ", npub, " is already an admin."))
        } else {
            None
        },
        MemberAction::RevokeMod => if is_owner {
            Some("⚠️ Cannot revoke admin from the community owner.".to_owned())
        } else if !is_admin {
            Some(text::cat3("ℹ️ ", npub, " is not an admin."))
        } else {
            None
        },
    }
}

/// A community's owner is never kicked, banned or demoted.
pub proof fn law_owner_is_spared(what: MemberAction, npub: Seq<char>, is_admin: bool)
    requires
        what == MemberAction::Kick || what == MemberAction::Ban || what == MemberAction::RevokeMod,
    ensures
        standing_refusal(what, npub, true, is_admin) is Some,
{
}

/// Whether the words of an error speak of missing permission.
pub open spec fn lacks_permission(err: Seq<char>) -> bool {
    let e = text::str_lowercase(err);
    ||| text::has_substring(e, "permission"@)
    ||| text::has_substring(e, "outrank"@)
    ||| text::has_substring(e, "rank"@)
    ||| text::has_substring(e, "denied"@)
    ||| text::has_substring(e, "unauthorized"@)
    ||| text::has_substring(e, "forbidden"@)
    ||| text::has_substring(e, "manage_roles"@)
    ||| text::has_substring(e, "not allowed"@)
}

/// Whether the words of an error speak of missing permission.
pub fn is_permission_error(err: &str) -> (r: bool)
    ensures
        r == lacks_permission(err@),
{
    let low = text::to_lowercase(err);
    let e = low.as_str();
    text::contains(e, "permission") || text::contains(e, "outrank") || text::contains(e, "rank")
        || text::contains(e, "denied") || text::contains(e, "unauthorized") || text::contains(
        e,
        "forbidden",
    ) || text::contains(e, "manage_roles") || text::contains(e, "not allowed")
}

/// What is said where permission was missing.
pub open spec fn permission_text(what: MemberAction) -> Seq<char> {
    match what {
        MemberAction::Kick => "⚠️ I don't have permission to kick that member. Need KICK capability + higher rank."@,
        MemberAction::Ban => "⚠️ I don't have permission to ban that member. Need BAN capability + higher rank."@,
        MemberAction::Unban => "⚠️ I don't have permission to unban that member. Need BAN capability."@,
        MemberAction::GrantMod => "⚠️ I don't have permission to manage roles. Need MANAGE_ROLES capability."@,
        MemberAction::RevokeMod => "⚠️ I don't have permission to manage roles. Need MANAGE_ROLES capability."@,
    }
}

/// What is said of an action that was done.
pub open spec fn done_text(what: MemberAction, npub: Seq<char>) -> Seq<char> {
    match what {
        MemberAction::Kick => "👢 Kicked "@ + npub + " from the community. (They can rejoin.)"@,
        MemberAction::Ban => "🔨 Banned "@ + npub + " from the community. (Community keys rotated for security)"@,
        MemberAction::Unban => "✅ Unbanned "@ + npub + " from the community."@,
        MemberAction::GrantMod => "✅ Granted admin role to "@ + npub + "."@,
        MemberAction::RevokeMod => "✅ Revoked admin role from "@ + npub + "."@,
    }
}

/// What is said of an action that failed for another reason.
pub open spec fn failed_text(what: MemberAction, npub: Seq<char>, shown: Seq<char>) -> Seq<char> {
    match what {
        MemberAction::Kick => "⚠️ Kick failed: "@ + shown,
        MemberAction::Ban => "⚠️ Ban failed: "@ + shown,
        MemberAction::Unban => "⚠️ Could not unban "@ + npub + ". They may not be banned or I lack permission."@,
        MemberAction::GrantMod => "⚠️ Could not grant admin to "@ + npub + ": "@ + shown,
        MemberAction::RevokeMod => "⚠️ Could not revoke admin from "@ + npub + ": "@ + shown,
    }
}

/// How an action on a member went: `detail` is all that is known of an error, `shown` what is for
/// people.
pub struct Failure<'a> {
    pub detail: &'a str,
    pub shown: &'a str,
}

fn show_permission(what: MemberAction) -> (r: String)
    ensures
        r@ == permission_text(what),
{
    let s = match what {
        MemberAction::Kick => "⚠️ I don't have permission to kick that member. Need KICK capability + higher rank.",
        MemberAction::Ban => "⚠️ I don't have permission to ban that member. Need BAN capability + higher rank.",
        MemberAction::Unban => "⚠️ I don't have permission to unban that member. Need BAN capability.",
        MemberAction::GrantMod => "⚠️ I don't have permission to manage roles. Need MANAGE_ROLES capability.",
        MemberAction::RevokeMod => "⚠️ I don't have permission to manage roles. Need MANAGE_ROLES capability.",
    };
    s.to_owned()
}

fn show_done(what: MemberAction, npub: &str) -> (r: String)
    ensures
        r@ == done_text(what, npub@),
{
    match what {
        MemberAction::Kick => text::cat3(
            "👢 Kicked ",
            npub,
            " from the community. (They can rejoin.)",
        ),
        MemberAction::Ban => text::cat3(
            "🔨 Banned ",
            npub,
            " from the community. (Community keys rotated for security)",
        ),
        MemberAction::Unban => text::cat3("✅ Unbanned ", npub, " from the community."),
        MemberAction::GrantMod => text::cat3("✅ Granted admin role to ", npub, "."),
        MemberAction::RevokeMod => text::cat3("✅ Revoked admin role from ", npub, "."),
    }
}

fn show_failed(what: MemberAction, npub: &str, shown: &str) -> (r: String)
    ensures
        r@ == failed_text(what, npub@, shown@),
{
    match what {
        MemberAction::Kick => text::cat2("⚠️ Kick failed: ", shown),
        MemberAction::Ban => text::cat2("⚠️ Ban failed: ", shown),
        MemberAction::Unban => text::cat3(
            "⚠️ Could not unban ",
            npub,
            ". They may not be banned or I lack permission.",
        ),
        MemberAction::GrantMod => text::cat4("⚠️ Could not grant admin to ", npub, ": ", shown),
        MemberAction::RevokeMod => text::cat4("⚠️ Could not revoke admin from ", npub, ": ", shown),
    }
}

/// The reply once something was done to a member, or why not.
pub fn member_reply(what: MemberAction, npub: &str, failure: Option<Failure>) -> (r: String)
    ensures
        r@ == match failure {
            None => done_text(what, npub@),
            Some(f) => if lacks_permission(f.detail@) {
                permission_text(what)
            } else {
                failed_text(what, npub@, f.shown@)
            },
        },
{
    match failure {
        None => show_done(what, npub),
        Some(f) => if is_permission_error(f.detail) {
            show_permission(what)
        } else {
            show_failed(what, npub, f.shown)
        },
    }
}

/// The member that `!kick` kicks, or why it does nothing.
pub fn kick_command(args: &str, in_community: bool, bot_npub: &str) -> (r: Result<String, String>)
    ensures
        match r {
            Ok(npub) => npub@ == handlers::plain_npub(args@) && request_refusal(
                MemberAction::Kick,
                args@,
                in_community,
                bot_npub@,
            ) is None,
            Err(why) => request_refusal(
                MemberAction::Kick,
                args@,
                in_community,
                bot_npub@,
            ) == Some(why@),
        },
{
    named_member(MemberAction::Kick, args, in_community, bot_npub)
}

/// The member that `!ban` bans, or why it does nothing.
pub fn ban_command(args: &str, in_community: bool, bot_npub: &str) -> (r: Result<String, String>)
    ensures
        match r {
            Ok(npub) => npub@ == handlers::plain_npub(args@) && request_refusal(
                MemberAction::Ban,
                args@,
                in_community,
                bot_npub@,
            ) is None,
            Err(why) => request_refusal(
                MemberAction::Ban,
                args@,
                in_community,
                bot_npub@,
            ) == Some(why@),
        },
{
    named_member(MemberAction::Ban, args, in_community, bot_npub)
}

/// The member that `!unban` lifts the ban of, or why it does nothing.
pub fn unban_command(args: &str, in_community: bool, bot_npub: &str) -> (r: Result<String, String>)
    ensures
        match r {
            Ok(npub) => npub@ == handlers::plain_npub(args@) && request_refusal(
                MemberAction::Unban,
                args@,
                in_community,
                bot_npub@,
            ) is None,
            Err(why) => request_refusal(
                MemberAction::Unban,
                args@,
                in_community,
                bot_npub@,
            ) == Some(why@),
        },
{
    named_member(MemberAction::Unban, args, in_community, bot_npub)
}

/// The member that `!grantmod` makes an admin of, or why it does nothing.
pub fn grantmod_command(args: &str, in_community: bool, bot_npub: &str) -> (r: Result<String, String>)
    ensures
        match r {
            Ok(npub) => npub@ == handlers::plain_npub(args@) && request_refusal(
                MemberAction::GrantMod,
                args@,
                in_community,
                bot_npub@,
            ) is None,
            Err(why) => request_refusal(
                MemberAction::GrantMod,
                args@,
                in_community,
                bot_npub@,
            ) == Some(why@),
        },
{
    named_member(MemberAction::GrantMod, args, in_community, bot_npub)
}

/// The member that `!revokemod` takes the admin role from, or why it does nothing.
pub fn revokemod_command(args: &str, in_community: bool, bot_npub: &str) -> (r: Result<String, String>)
    ensures
        match r {
            Ok(npub) => npub@ == handlers::plain_npub(args@) && request_refusal(
                MemberAction::RevokeMod,
                args@,
                in_community,
                bot_npub@,
            ) is None,
            Err(why) => request_refusal(
                MemberAction::RevokeMod,
                args@,
                in_community,
                bot_npub@,
            ) == Some(why@),
        },
{
    named_member(MemberAction::RevokeMod, args, in_community, bot_npub)
}

// ---------------------------------------------------------------------------
// Warnings
// ---------------------------------------------------------------------------

/// A warning.
pub struct Warning {
    pub npub: String,
    pub reason: String,
    pub timestamp: String,
    pub warned_by: String,
}

/// What a warning says.
pub struct WarningView {
    pub npub: Seq<char>,
    pub reason: Seq<char>,
    pub timestamp: Seq<char>,
    pub warned_by: Seq<char>,
}

impl View for Warning {
    type V = WarningView;

    open spec fn view(&self) -> WarningView {
        WarningView {
            npub: self.npub@,
            reason: self.reason@,
            timestamp: self.timestamp@,
            warned_by: self.warned_by@,
        }
    }
}

/// What warnings say.
pub open spec fn warning_views(v: Seq<Warning>) -> Seq<WarningView> {
    v.map_values(|w: Warning| w@)
}

/// The file that warnings are kept in.
pub fn warnings_file() -> (r: &'static str)
    ensures
        r@ == "data/warnings.json"@,
{
    "data/warnings.json"
}

/// The warnings of a user.
pub open spec fn warnings_of(v: Seq<WarningView>, npub: Seq<char>) -> Seq<WarningView>
    decreases v.len(),
{
    if v.len() == 0 {
        v
    } else if v.last().npub == npub {
        warnings_of(v.drop_last(), npub).push(v.last())
    } else {
        warnings_of(v.drop_last(), npub)
    }
}

fn count_warnings(v: &Vec<Warning>, npub: &str) -> (r: usize)
    ensures
        r == warnings_of(warning_views(v@), npub@).len(),
{
    let ghost all = warning_views(v@);
    let mut count: usize = 0;
    let mut i: usize = 0;
    proof {
        assert(all.take(0) =~= Seq::empty());
    }
    while i < v.len()
        invariant
            i <= v.len(),
            all == warning_views(v@),
            count <= i,
            count == warnings_of(all.take(i as int), npub@).len(),
        decreases v.len() - i,
    {
        proof {
            assert(all.take(i + 1).drop_last() =~= all.take(i as int));
            assert(all.take(i + 1).last() == v@[i as int]@);
        }
        if text::same(v[i].npub.as_str(), npub) {
            count = count + 1;
        }
        i = i + 1;
    }
    proof {
        assert(all.take(i as int) =~= all);
    }
    count
}

/// The time of a warning in UTC, or its number where it is out of range.
pub open spec fn warning_time(now: i64) -> Seq<char> {
    match clock::utc_text(now, "%Y-%m-%d %H:%M:%S UTC"@) {
        Some(t) => t,
        None => number::signed_decimal(now as int),
    }
}

/// The user that a warning names.
pub open spec fn warned_user(args: Seq<char>) -> Seq<char> {
    handlers::plain_npub(text::head_word(text::trimmed(args)))
}

/// The reason that a warning gives.
pub open spec fn warned_for(args: Seq<char>) -> Seq<char> {
    text::trimmed(text::or_else(text::tail_words(text::trimmed(args)), ""@))
}

/// Why no warning is issued, if none is.
pub open spec fn warn_refusal(args: Seq<char>) -> Option<Seq<char>> {
    if text::trimmed(args).len() == 0 {
        Some(
            "Usage: !warn <npub> <reason>\nExample: !warn npub1abc... Please be respectful"@,
        )
    } else if !"npub1"@.is_prefix_of(warned_user(args)) {
        Some(no_npub())
    } else if warned_for(args).len() == 0 {
        Some(
            "⚠️ Please provide a reason.\nExample: !warn nostr:npub1abc... Spamming links  OR  !warn npub1abc... Spamming links"@,
        )
    } else {
        None
    }
}

/// Answers `!warn`: the warning is recorded.
pub fn warn_command(warnings: &mut Vec<Warning>, args: &str, bot_npub: &str, now: i64) -> (r: String)
    ensures
        ({
            let before = warning_views(old(warnings)@);
            match warn_refusal(args@) {
                Some(why) => r@ == why && warning_views(final(warnings)@) == before,
                None => {
                    &&& r@ == "⚠️ Warning issued to "@ + warned_user(args@) + " (warning #"@
                        + number::decimal(warnings_of(before, warned_user(args@)).len() + 1)
                        + "): "@ + warned_for(args@)
                    &&& warning_views(final(warnings)@) == before.push(
                        WarningView {
                            npub: warned_user(args@),
                            reason: warned_for(args@),
                            timestamp: warning_time(now),
                            warned_by: bot_npub@,
                        },
                    )
                },
            }
        }),
{
    let a = text::trim(args);
    if a.is_empty() {
        return "Usage: !warn <npub> <reason>\nExample: !warn npub1abc... Please be respectful".to_owned();
    }
    let (head, tail) = text::split_word(a);
    let npub = handlers::normalize_npub(head);
    let rest = text::own_or(tail, "");
    let reason = text::trim(rest.as_str());
    if !text::starts_with(npub.as_str(), "npub1") {
        return invalid_npub();
    }
    if reason.is_empty() {
        return "⚠️ Please provide a reason.\nExample: !warn nostr:npub1abc... Spamming links  OR  !warn npub1abc... Spamming links".to_owned();
    }
    let timestamp = match clock::format_utc(now, "%Y-%m-%d %H:%M:%S UTC") {
        Some(t) => t,
        None => number::show_signed(now),
    };
    let number: u128 = count_warnings(warnings, npub.as_str()) as u128 + 1;
    let ghost before = warning_views(warnings@);
    let reply = text::cat6(
        "⚠️ Warning issued to ",
        npub.as_str(),
        " (warning #",
        number::show_wide(number).as_str(),
        "): ",
        reason,
    );
    let w = Warning {
        npub,
        reason: reason.to_owned(),
        timestamp,
        warned_by: bot_npub.to_owned(),
    };
    let ghost seen = w@;
    warnings.push(w);
    proof {
        assert(warning_views(warnings@) =~= before.push(seen));
    }
    reply
}

/// A warning that was issued is on record after those before it, and the others' are as they
/// were.
pub proof fn law_warning_is_recorded(v: Seq<WarningView>, w: WarningView, other: Seq<char>)
    requires
        other != w.npub,
    ensures
        warnings_of(v.push(w), w.npub) == warnings_of(v, w.npub).push(w),
        warnings_of(v.push(w), other) == warnings_of(v, other),
{
    assert(v.push(w).drop_last() =~= v);
}

/// The first `count` warnings, a line each.
pub open spec fn warning_lines(v: Seq<WarningView>, count: int) -> Seq<char>
    decreases count,
{
    if count <= 0 {
        Seq::empty()
    } else {
        warning_lines(v, count - 1) + ("  "@ + number::decimal(count as nat) + ". "@ + v[count
            - 1].reason + " ("@ + v[count - 1].timestamp + ")\n"@)
    }
}

/// The reply with the warnings of a user.
pub open spec fn warnings_text(npub: Seq<char>, v: Seq<WarningView>) -> Seq<char> {
    if v.len() == 0 {
        "📋 No warnings on record for "@ + npub + "."@
    } else {
        text::trimmed(
            "📋 Warnings for "@ + npub + " ("@ + number::decimal(v.len()) + "):\n"@
                + warning_lines(v, v.len() as int),
        )
    }
}

fn show_warnings(v: &Vec<Warning>, npub: &str) -> (r: String)
    ensures
        r@ == warning_lines(
            warnings_of(warning_views(v@), npub@),
            warnings_of(warning_views(v@), npub@).len() as int,
        ),
{
    let ghost all = warning_views(v@);
    let mut out = String::new();
    let mut count: usize = 0;
    let mut i: usize = 0;
    proof {
        assert(all.take(0) =~= Seq::empty());
    }
    while i < v.len()
        invariant
            i <= v.len(),
            all == warning_views(v@),
            count <= i,
            count == warnings_of(all.take(i as int), npub@).len(),
            out@ == warning_lines(warnings_of(all.take(i as int), npub@), count as int),
        decreases v.len() - i,
    {
        let w = &v[i];
        let ghost before = warnings_of(all.take(i as int), npub@);
        proof {
            assert(all.take(i + 1).drop_last() =~= all.take(i as int));
            assert(all.take(i + 1).last() == w@);
        }
        if text::same(w.npub.as_str(), npub) {
            let line = text::cat7(
                "  ",
                number::show_wide(count as u128 + 1).as_str(),
                ". ",
                w.reason.as_str(),
                " (",
                w.timestamp.as_str(),
                ")\n",
            );
            proof {
                lemma_lines_prefix(before, w@, count as int);
            }
            out.push_str(line.as_str());
            count = count + 1;
        }
        i = i + 1;
    }
    proof {
        assert(all.take(i as int) =~= all);
    }
    out
}

proof fn lemma_lines_prefix(v: Seq<WarningView>, w: WarningView, count: int)
    requires
        0 <= count <= v.len(),
    ensures
        warning_lines(v.push(w), count) == warning_lines(v, count),
    decreases count,
{
    if count > 0 {
        lemma_lines_prefix(v, w, count - 1);
        assert(v.push(w)[count - 1] == v[count - 1]);
    }
}

/// Answers `!warnings`.
pub fn warnings_command(warnings: &Vec<Warning>, args: &str) -> (r: String)
    ensures
        ({
            let npub = handlers::plain_npub(args@);
            r@ == if npub.len() == 0 {
                "Usage: !warnings <npub>\nExample: !warnings nostr:npub1abc...  OR  !warnings npub1abc..."@
            } else if !"npub1"@.is_prefix_of(npub) {
                no_npub()
            } else {
                warnings_text(npub, warnings_of(warning_views(warnings@), npub))
            }
        }),
{
    let who = handlers::normalize_npub(args);
    let npub = who.as_str();
    if npub.is_empty() {
        return "Usage: !warnings <npub>\nExample: !warnings nostr:npub1abc...  OR  !warnings npub1abc...".to_owned();
    }
    if !text::starts_with(npub, "npub1") {
        return invalid_npub();
    }
    let count: usize = count_warnings(warnings, npub);
    if count == 0 {
        return text::cat3("📋 No warnings on record for ", npub, ".");
    }
    let out = text::cat6(
        "📋 Warnings for ",
        npub,
        " (",
        number::show_size(count).as_str(),
        "):\n",
        show_warnings(warnings, npub).as_str(),
    );
    text::trim(out.as_str()).to_owned()
}

// ---------------------------------------------------------------------------
// !leave and !mods
// ---------------------------------------------------------------------------

/// What `!leave` says first; an error where there is no community to leave.
pub fn leave_command(community: Option<&str>) -> (r: Result<String, String>)
    ensures
        match (community, r) {
            (Some(id), Ok(s)) => s@ == "👋 Leaving community... ("@ + id@ + ")"@,
            (None, Err(s)) => s@ == handlers::no_community(),
            _ => false,
        },
{
    match community {
        Some(id) => Ok(text::cat3("👋 Leaving community... (", id, ")")),
        None => Err(handlers::outside_community()),
    }
}

/// What `!leave` says in the end.
pub fn leave_reply(error: Option<&str>) -> (r: String)
    ensures
        r@ == match error {
            None => "✅ Successfully left the community. Goodbye! 👋"@,
            Some(e) => "⚠️ Could not leave the community: "@ + e@,
        },
{
    match error {
        None => "✅ Successfully left the community. Goodbye! 👋".to_owned(),
        Some(e) => text::cat2("⚠️ Could not leave the community: ", e),
    }
}

/// Answers `!mods`, given the roles where there is a community.
pub fn mods_command(outcome: Option<Result<&Json, &str>>) -> (r: String)
    ensures
        r@ == match outcome {
            None => handlers::no_community(),
            Some(Ok(roles)) => "📋 Community roles:\n```"@ + json::json_compact(roles@) + "```"@,
            Some(Err(e)) => "⚠️ Could not fetch roles: "@ + e@,
        },
{
    match outcome {
        None => handlers::outside_community(),
        Some(Ok(roles)) => text::cat3(
            "📋 Community roles:\n```",
            json::compact(roles).as_str(),
            "```",
        ),
        Some(Err(e)) => text::cat2("⚠️ Could not fetch roles: ", e),
    }
}

} // verus!
