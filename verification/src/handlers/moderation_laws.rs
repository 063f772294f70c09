//! What holds of the moderation commands as a whole.

use vstd::prelude::*;
use crate::handlers::engagement_laws;
use crate::handlers::moderation_cmds;
use crate::handlers::moderation_cmds::{MemberAction, WarningView};
use crate::{handlers, number, text};

verus! {

// ---------------------------------------------------------------------------
// Members
// ---------------------------------------------------------------------------

/// A string that can name a member: an npub without whitespace.
pub open spec fn names_member(npub: Seq<char>) -> bool {
    &&& npub.len() >= 5
    &&& npub.take(5) == seq!['n', 'p', 'u', 'b', '1']
    &&& text::unspaced(npub)
}

proof fn lemma_member_is_meant(before: Seq<char>, npub: Seq<char>, after: Seq<char>)
    requires
        names_member(npub),
        forall|i: int| 0 <= i < before.len() ==> text::char_is_whitespace(#[trigger] before[i]),
        forall|i: int| 0 <= i < after.len() ==> text::char_is_whitespace(#[trigger] after[i]),
    ensures
        handlers::plain_npub(before + npub + after) == npub,
        handlers::plain_npub(before + ("nostr:"@ + npub) + after) == npub,
        "npub1"@.is_prefix_of(npub),
{
    reveal_strlit("npub1");
    reveal_strlit("nostr:");
    assert(npub.take(5)[0] == 'n' && npub.take(5)[1] == 'p');
    assert(npub[0] == 'n' && npub[1] == 'p');
    assert("npub1"@ =~= npub.subrange(0, 5));
    if "nostr:"@.is_prefix_of(npub) {
        assert(npub.subrange(0, 6)[1] == 'o');
    }
    engagement_laws::law_npub_is_meant(before, npub, after);
}

/// A member who is named by npub, plainly or as a link and with whitespace around, is taken in a
/// community by every command, unless the bot is to be kicked or banned itself; outside a community
/// nobody is.
pub proof fn law_named_member_is_taken(
    what: MemberAction,
    before: Seq<char>,
    npub: Seq<char>,
    after: Seq<char>,
    bot: Seq<char>,
)
    requires
        names_member(npub),
        forall|i: int| 0 <= i < before.len() ==> text::char_is_whitespace(#[trigger] before[i]),
        forall|i: int| 0 <= i < after.len() ==> text::char_is_whitespace(#[trigger] after[i]),
    ensures
        moderation_cmds::request_refusal(what, before + npub + after, true, bot) is Some <==> npub
            == bot && (what is Kick || what is Ban),
        moderation_cmds::request_refusal(what, before + ("nostr:"@ + npub) + after, true, bot)
            == moderation_cmds::request_refusal(what, before + npub + after, true, bot),
        moderation_cmds::request_refusal(what, before + npub + after, false, bot) == Some(
            handlers::no_community(),
        ),
{
    lemma_member_is_meant(before, npub, after);
}

/// What is no npub names nobody, in or out of a community.
pub proof fn law_other_words_name_nobody(
    what: MemberAction,
    args: Seq<char>,
    in_community: bool,
    bot: Seq<char>,
)
    requires
        text::trimmed(args) == args,
        args.len() > 0 ==> args[0] != 'n' && args[0] != '@',
    ensures
        moderation_cmds::request_refusal(what, args, in_community, bot) is Some,
        args.len() > 0 ==> moderation_cmds::request_refusal(what, args, in_community, bot) == Some(
            moderation_cmds::no_npub(),
        ),
{
    reveal_strlit("npub1");
    reveal_strlit("nostr:");
    if args.len() > 0 {
        if "nostr:"@.is_prefix_of(args) {
            assert(args.subrange(0, 6)[0] == 'n');
        }
        if "npub1"@.is_prefix_of(args) {
            assert(args.subrange(0, 5)[0] == 'n');
        }
    }
}

/// The owner is never kicked, banned or stripped of a role, everybody else can be kicked and
/// banned, the role goes to those who lack it and is taken from those who have it, and a ban is
/// lifted for anybody.
pub proof fn law_who_can_be_dealt_with(npub: Seq<char>, is_owner: bool, is_admin: bool)
    ensures
        moderation_cmds::standing_refusal(MemberAction::Kick, npub, is_owner, is_admin) is Some
            <==> is_owner,
        moderation_cmds::standing_refusal(MemberAction::Ban, npub, is_owner, is_admin) is Some
            <==> is_owner,
        moderation_cmds::standing_refusal(MemberAction::Unban, npub, is_owner, is_admin) is None,
        moderation_cmds::standing_refusal(MemberAction::GrantMod, npub, is_owner, is_admin) is Some
            <==> is_admin,
        moderation_cmds::standing_refusal(MemberAction::RevokeMod, npub, is_owner, is_admin) is None
            <==> is_admin && !is_owner,
{
}

/// What was done is told with the name of the one it was done to.
#[verifier::rlimit(30)]
pub proof fn law_outcome_names_the_member(what: MemberAction, npub: Seq<char>)
    ensures
        text::has_substring(moderation_cmds::done_text(what, npub), npub),
        what is Kick ==> text::has_substring(moderation_cmds::done_text(what, npub), "Kicked "@ + npub),
        what is Ban ==> text::has_substring(moderation_cmds::done_text(what, npub), "Banned "@ + npub),
        what is Unban ==> text::has_substring(
            moderation_cmds::done_text(what, npub),
            "Unbanned "@ + npub,
        ),
        what is GrantMod ==> text::has_substring(
            moderation_cmds::done_text(what, npub),
            "Granted admin role to "@ + npub,
        ),
        what is RevokeMod ==> text::has_substring(
            moderation_cmds::done_text(what, npub),
            "Revoked admin role from "@ + npub,
        ),
{
    match what {
        MemberAction::Kick => {
            reveal_strlit("👢 Kicked ");
            reveal_strlit("Kicked ");
            let tail = " from the community. (They can rejoin.)"@;
            text::lemma_substring_between("👢 Kicked "@, npub, tail);
            assert("👢 Kicked "@ + npub + tail =~= "👢 Kicked "@.take(2) + ("Kicked "@ + npub) + tail);
            text::lemma_substring_between("👢 Kicked "@.take(2), "Kicked "@ + npub, tail);
        },
        MemberAction::Ban => {
            reveal_strlit("🔨 Banned ");
            reveal_strlit("Banned ");
            let tail = " from the community. (Community keys rotated for security)"@;
            text::lemma_substring_between("🔨 Banned "@, npub, tail);
            assert("🔨 Banned "@ + npub + tail =~= "🔨 Banned "@.take(2) + ("Banned "@ + npub) + tail);
            text::lemma_substring_between("🔨 Banned "@.take(2), "Banned "@ + npub, tail);
        },
        MemberAction::Unban => {
            reveal_strlit("✅ Unbanned ");
            reveal_strlit("Unbanned ");
            let tail = " from the community."@;
            text::lemma_substring_between("✅ Unbanned "@, npub, tail);
            assert("✅ Unbanned "@ + npub + tail =~= "✅ Unbanned "@.take(2) + ("Unbanned "@ + npub)
                + tail);
            text::lemma_substring_between("✅ Unbanned "@.take(2), "Unbanned "@ + npub, tail);
        },
        MemberAction::GrantMod => {
            reveal_strlit("✅ Granted admin role to ");
            reveal_strlit("Granted admin role to ");
            text::lemma_substring_between("✅ Granted admin role to "@, npub, "."@);
            assert("✅ Granted admin role to "@ + npub + "."@ =~= "✅ Granted admin role to "@.take(2) + (
            "Granted admin role to "@ + npub) + "."@);
            text::lemma_substring_between(
                "✅ Granted admin role to "@.take(2),
                "Granted admin role to "@ + npub,
                "."@,
            );
        },
        MemberAction::RevokeMod => {
            reveal_strlit("✅ Revoked admin role from ");
            reveal_strlit("Revoked admin role from ");
            text::lemma_substring_between("✅ Revoked admin role from "@, npub, "."@);
            assert("✅ Revoked admin role from "@ + npub + "."@ =~= "✅ Revoked admin role from "@.take(
                2,
            ) + ("Revoked admin role from "@ + npub) + "."@);
            text::lemma_substring_between(
                "✅ Revoked admin role from "@.take(2),
                "Revoked admin role from "@ + npub,
                "."@,
            );
        },
    }
}

/// A refusal that speaks of rank, permission or denial is one for want of permission, whatever is
/// said around it and in whatever case.
pub proof fn law_refusals_are_recognized(before: Seq<char>, word: Seq<char>, after: Seq<char>)
    requires
        word == "permission"@ || word == "rank"@ || word == "outrank"@ || word == "denied"@ || word
            == "unauthorized"@ || word == "forbidden"@ || word == "manage_roles"@ || word
            == "not allowed"@,
    ensures
        forall|err: Seq<char>|
            text::str_lowercase(err) == #[trigger] ((before + word) + after)
                ==> moderation_cmds::lacks_permission(err),
{
    text::lemma_substring_between(before, word, after);
}

// ---------------------------------------------------------------------------
// Warnings
// ---------------------------------------------------------------------------

/// A warning goes to the npub that stands first, for what stands behind it; without a reason there
/// is none.
pub proof fn law_warning_is_read(npub: Seq<char>, reason: Seq<char>)
    requires
        names_member(npub),
        reason.len() > 0,
        text::trimmed(reason) == reason,
    ensures
        moderation_cmds::warn_refusal(npub.push(' ') + reason) is None,
        moderation_cmds::warned_user(npub.push(' ') + reason) == npub,
        moderation_cmds::warned_for(npub.push(' ') + reason) == reason,
        moderation_cmds::warn_refusal(npub) is Some,
{
    let none = Seq::<char>::empty();
    let all = npub.push(' ') + reason;
    text::law_first_word_is_cut(npub, ' ', reason);
    text::law_trimmed_has_bare_ends(reason);
    assert(none + all + none =~= all);
    assert(all[0] == npub[0] && all.last() == reason.last());
    text::lemma_trim_around(none, all, none);
    assert(none + npub + none =~= npub);
    assert(npub.last() == npub[npub.len() - 1]);
    text::lemma_trim_around(none, npub, none);
    lemma_member_is_meant(none, npub, none);
    reveal_strlit("");
    assert(""@ =~= none);
}

/// A new warning is one more on the record of the one it went to, and on nobody else's.
pub proof fn law_warnings_are_counted(v: Seq<WarningView>, w: WarningView, npub: Seq<char>)
    ensures
        moderation_cmds::warnings_of(v.push(w), npub) == if w.npub == npub {
            moderation_cmds::warnings_of(v, npub).push(w)
        } else {
            moderation_cmds::warnings_of(v, npub)
        },
        moderation_cmds::warnings_of(Seq::empty(), npub).len() == 0,
{
    assert(v.push(w).drop_last() =~= v);
}

/// What a record holds was given to the one it is of, and all that was is held.
#[verifier::rlimit(30)]
pub proof fn law_record_holds_ones_warnings(v: Seq<WarningView>, npub: Seq<char>, w: WarningView)
    ensures
        moderation_cmds::warnings_of(v, npub).contains(w) <==> v.contains(w) && w.npub == npub,
    decreases v.len(),
{
    if v.len() > 0 {
        let init = v.drop_last();
        law_record_holds_ones_warnings(init, npub, w);
        let rest = moderation_cmds::warnings_of(init, npub);
        assert(v =~= init.push(v.last()));
        if v.contains(w) {
            let i = choose|i: int| 0 <= i < v.len() && v[i] == w;
            if i < init.len() {
                assert(init[i] == w);
            }
        }
        if init.contains(w) {
            let i = choose|i: int| 0 <= i < init.len() && init[i] == w;
            assert(v[i] == w);
        }
        assert(v[v.len() - 1] == v.last());
        if v.last().npub == npub {
            let all = rest.push(v.last());
            assert(all[rest.len() as int] == v.last());
            if rest.contains(w) {
                let i = choose|i: int| 0 <= i < rest.len() && rest[i] == w;
                assert(all[i] == w);
            }
            if all.contains(w) {
                let i = choose|i: int| 0 <= i < all.len() && all[i] == w;
                if i < rest.len() {
                    assert(rest[i] == w);
                }
            }
        }
    }
}

/// Each warning of a record is listed with its number and its reason.
pub proof fn law_warnings_are_listed(v: Seq<WarningView>, count: int, i: int)
    requires
        0 <= i < count <= v.len(),
    ensures
        text::has_substring(
            moderation_cmds::warning_lines(v, count),
            number::decimal((i + 1) as nat) + ". "@ + v[i].reason + " ("@ + v[i].timestamp + ")"@,
        ),
    decreases count,
{
    let d = number::decimal((i + 1) as nat);
    let line = d + ". "@ + v[i].reason + " ("@ + v[i].timestamp + ")"@;
    let rest = moderation_cmds::warning_lines(v, count - 1);
    let whole = moderation_cmds::warning_lines(v, count);
    let last = "  "@ + number::decimal(count as nat) + ". "@ + v[count - 1].reason + " ("@ + v[count
        - 1].timestamp + ")\n"@;
    let none = Seq::<char>::empty();
    assert(whole == rest + last);
    if i == count - 1 {
        reveal_strlit(")\n");
        reveal_strlit(")");
        assert(")\n"@ =~= ")"@ + seq!['\n']);
        assert(whole =~= (rest + "  "@) + line + seq!['\n']);
        text::lemma_substring_between(rest + "  "@, line, seq!['\n']);
    } else {
        law_warnings_are_listed(v, count - 1, i);
        text::lemma_substring_between(none, rest, last);
        assert(none + rest + last =~= whole);
        text::lemma_substring_of_part(whole, rest, line);
    }
}

} // verus!
