//! What holds of the commands that let users in, switch channels and list commands.

use vstd::prelude::*;
use crate::auth::AuthView;
use crate::community::CommunityView;
use crate::config::{Feature, FeaturesSection};
use crate::handlers::commands;
use crate::handlers::commands::{MetaView, Section};
use crate::handlers::moderation_laws;
use crate::{handlers, number, text};

verus! {

proof fn lemma_named(npub: Seq<char>)
    requires
        moderation_laws::names_member(npub),
    ensures
        text::words(npub) == seq![npub],
        text::words(npub.push(' ') + "global"@) == seq![npub, "global"@],
        handlers::plain_npub(npub) == npub,
        "npub1"@.is_prefix_of(npub),
{
    reveal_strlit("npub1");
    reveal_strlit("nostr:");
    reveal_strlit("global");
    let none = Seq::<char>::empty();
    assert(npub.take(5)[0] == 'n' && npub.take(5)[1] == 'p');
    assert(npub[0] == 'n' && npub[1] == 'p');
    assert("npub1"@ =~= npub.subrange(0, 5));
    if "nostr:"@.is_prefix_of(npub) {
        assert(npub.subrange(0, 6)[1] == 'o');
    }
    assert(none + npub + none =~= npub);
    assert(npub[npub.len() - 1] == npub.last());
    text::lemma_trim_around(none, npub, none);
    text::law_words_are_counted(none, ' ', npub);
    text::law_words_are_counted(npub, ' ', "global"@);
    assert(seq![npub].push("global"@) =~= seq![npub, "global"@]);
}

/// A user is added to the community that the command came from, or to every one where `global` says
/// so, unless they are the owner or on that list's scope already.
pub proof fn law_user_is_added(a: AuthView, npub: Seq<char>, community: Option<Seq<char>>)
    requires
        moderation_laws::names_member(npub),
    ensures
        commands::named_user(npub) == npub,
        commands::named_list(npub, community) == community,
        commands::add_refusal(a, npub, community) is None <==> npub != a.owner && !a.authorizes(
            npub,
            community,
        ),
        commands::named_user(npub.push(' ') + "global"@) == npub,
        commands::named_list(npub.push(' ') + "global"@, community) is None,
        commands::add_refusal(a, npub.push(' ') + "global"@, community) is None <==> npub != a.owner
            && !a.global.contains(npub),
{
    lemma_named(npub);
    reveal_strlit("global");
    reveal_strlit("");
    assert("global"@.len() != ""@.len());
}

/// A user is taken off the list that the command names, unless they are the owner or not authorized
/// there.
pub proof fn law_user_is_removed(a: AuthView, npub: Seq<char>, community: Option<Seq<char>>)
    requires
        moderation_laws::names_member(npub),
    ensures
        commands::remove_refusal(a, npub, community) is None <==> npub != a.owner && a.authorizes(
            npub,
            community,
        ),
        commands::remove_refusal(a, npub.push(' ') + "global"@, community) is None <==> npub
            != a.owner && a.global.contains(npub),
{
    lemma_named(npub);
    reveal_strlit("global");
    reveal_strlit("");
    assert("global"@.len() != ""@.len());
}

/// What names nobody adds and removes nobody.
pub proof fn law_nobody_is_added(a: AuthView, args: Seq<char>, community: Option<Seq<char>>)
    requires
        text::words(args).len() == 0,
    ensures
        commands::add_refusal(a, args, community) is Some,
        commands::remove_refusal(a, args, community) is Some,
{
}

/// A user is told whether they are the owner, authorized where they ask, or neither.
pub proof fn law_standing_is_told(a: AuthView, npub: Seq<char>, community: Option<Seq<char>>)
    requires
        npub.len() > 0,
    ensures
        npub == a.owner ==> text::has_substring(
            commands::auth_status(Some(a), npub, community),
            "You are the **owner**"@,
        ),
        npub != a.owner && a.authorizes(npub, community) ==> text::has_substring(
            commands::auth_status(Some(a), npub, community),
            "You are **authorized** in "@ + commands::scope_name(community),
        ),
        npub != a.owner && !a.authorizes(npub, community) ==> text::has_substring(
            commands::auth_status(Some(a), npub, community),
            "You are **not authorized** in "@ + commands::scope_name(community),
        ),
{
    let scope = commands::scope_name(community);
    let none = Seq::<char>::empty();
    if npub == a.owner {
        reveal_strlit("👑 You are the **owner**.\nnpub: ");
        reveal_strlit("You are the **owner**");
        let t = "👑 You are the **owner**.\nnpub: "@;
        let p = "You are the **owner**"@;
        assert(t =~= t.take(2) + p + t.skip(2 + p.len() as int));
        assert(t + npub =~= t.take(2) + p + (t.skip(2 + p.len() as int) + npub));
        text::lemma_substring_between(t.take(2), p, t.skip(2 + p.len() as int) + npub);
    } else if a.authorizes(npub, community) {
        reveal_strlit("✅ You are **authorized** in ");
        reveal_strlit("You are **authorized** in ");
        let t = "✅ You are **authorized** in "@;
        let p = "You are **authorized** in "@;
        assert(t =~= t.take(2) + p);
        assert(t + scope + ".\nnpub: "@ + npub =~= t.take(2) + (p + scope) + (".\nnpub: "@ + npub));
        text::lemma_substring_between(t.take(2), p + scope, ".\nnpub: "@ + npub);
    } else {
        reveal_strlit("❌ You are **not authorized** in ");
        reveal_strlit("You are **not authorized** in ");
        let t = "❌ You are **not authorized** in "@;
        let p = "You are **not authorized** in "@;
        let tail = ".\nnpub: "@ + npub + "\nAsk the owner to run: !add "@ + npub;
        assert(t =~= t.take(2) + p);
        assert(t + scope + ".\nnpub: "@ + npub + "\nAsk the owner to run: !add "@ + npub =~= t.take(2)
            + (p + scope) + tail);
        text::lemma_substring_between(t.take(2), p + scope, tail);
    }
}

/// Everyone on a list is listed, and how many they are is told; the owner always is.
#[verifier::rlimit(30)]
pub proof fn law_lists_are_shown(
    owner: Seq<char>,
    global: Seq<Seq<char>>,
    local: Seq<Seq<char>>,
    i: int,
)
    ensures
        ({
            let shown = text::joined(commands::list_lines(owner, global, local), "\n"@);
            &&& text::has_substring(shown, "Owner: "@ + owner)
            &&& 0 <= i < global.len() ==> text::has_substring(shown, "  • "@ + global[i])
            &&& 0 <= i < local.len() ==> text::has_substring(shown, "  • "@ + local[i])
            &&& global.len() > 0 ==> text::has_substring(
                shown,
                "Global authorized ("@ + number::decimal(global.len()) + "):"@,
            )
            &&& local.len() > 0 ==> text::has_substring(
                shown,
                "This community authorized ("@ + number::decimal(local.len()) + "):"@,
            )
        }),
{
    let lines = commands::list_lines(owner, global, local);
    let shown = text::joined(lines, "\n"@);
    let g = commands::name_block("\n🌍 Global authorized ("@, global);
    let l = commands::name_block("\n📍 This community authorized ("@, local);
    assert(lines[0] == "Owner: "@ + owner);
    text::lemma_joined_holds(lines, "\n"@, 0);
    if global.len() > 0 {
        assert(lines[1] == g[0]);
        text::lemma_joined_holds(lines, "\n"@, 1);
        reveal_strlit("\n🌍 Global authorized (");
        reveal_strlit("Global authorized (");
        let t = "\n🌍 Global authorized ("@;
        let p = "Global authorized ("@ + number::decimal(global.len()) + "):"@;
        let none = Seq::<char>::empty();
        assert(t =~= t.take(3) + "Global authorized ("@);
        assert(g[0] =~= t.take(3) + p + none);
        text::lemma_substring_between(t.take(3), p, none);
        text::lemma_substring_of_part(shown, g[0], p);
    }
    if 0 <= i < global.len() {
        assert(g[1 + i] == "  • "@ + global[i]);
        assert(lines[2 + i] == g[1 + i]);
        text::lemma_joined_holds(lines, "\n"@, 2 + i);
    }
    let at = 1 + g.len() as int;
    if local.len() > 0 {
        assert(lines[at] == l[0]);
        text::lemma_joined_holds(lines, "\n"@, at);
        reveal_strlit("\n📍 This community authorized (");
        reveal_strlit("This community authorized (");
        let t = "\n📍 This community authorized ("@;
        let p = "This community authorized ("@ + number::decimal(local.len()) + "):"@;
        let none = Seq::<char>::empty();
        assert(t =~= t.take(3) + "This community authorized ("@);
        assert(l[0] =~= t.take(3) + p + none);
        text::lemma_substring_between(t.take(3), p, none);
        text::lemma_substring_of_part(shown, l[0], p);
    }
    if 0 <= i < local.len() {
        assert(l[1 + i] == "  • "@ + local[i]);
        assert(lines[at + 1 + i] == l[1 + i]);
        text::lemma_joined_holds(lines, "\n"@, at + 1 + i);
    }
}

/// A channel is as it was switched last, and the others are as they were.
pub proof fn law_channel_is_as_switched(
    db: CommunityView,
    channel: Seq<char>,
    other: Seq<char>,
    on: bool,
    npub: Seq<char>,
    now: i64,
)
    requires
        other != channel,
    ensures
        commands::switched(db, channel, on, npub, now).enabled(channel) == on,
        commands::switched(db, channel, on, npub, now).enabled(other) == db.enabled(other),
        commands::switched(
            commands::switched(db, channel, on, npub, now),
            channel,
            on,
            npub,
            now,
        ) == commands::switched(db, channel, on, npub, now),
        commands::switched(db, channel, on, npub, now).users == db.users,
{
}

/// The commands of a feature are listed under it only where it is on.
pub proof fn law_switched_off_features_are_not_listed(
    rows: Seq<MetaView>,
    feature: Feature,
    features: FeaturesSection,
)
    requires
        !features.flag(feature),
    ensures
        commands::section_lines(rows, Section::Of(feature), features).len() == 0,
    decreases rows.len(),
{
    if rows.len() > 0 {
        law_switched_off_features_are_not_listed(rows.drop_last(), feature, features);
    }
}

/// A command of the core is listed for everyone or for the owner, by whom it is for; one of a
/// feature is listed under that feature.
pub proof fn law_where_commands_are_listed(features: FeaturesSection, m: MetaView, feature: Feature)
    ensures
        commands::lists(Section::General, features, m) <==> m.feature is None && !(m.auth is Owner),
        commands::lists(Section::Owner, features, m) <==> m.feature is None && m.auth is Owner,
        commands::lists(Section::Of(feature), features, m) <==> m.feature == Some(feature)
            && features.flag(feature),
{
}

/// A section lists its commands in the order of the registry, each by its name and what it does.
pub proof fn law_sections_keep_order(
    rows: Seq<MetaView>,
    section: Section,
    features: FeaturesSection,
    m: MetaView,
)
    ensures
        commands::lists(section, features, m) ==> commands::section_lines(
            rows.push(m),
            section,
            features,
        ) == commands::section_lines(rows, section, features).push(
            "  "@ + m.name + " — "@ + m.description,
        ),
        !commands::lists(section, features, m) ==> commands::section_lines(
            rows.push(m),
            section,
            features,
        ) == commands::section_lines(rows, section, features),
{
    assert(rows.push(m).drop_last() =~= rows);
}

} // verus!
