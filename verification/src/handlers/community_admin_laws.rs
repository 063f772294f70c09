//! What holds of the commands that manage communities.

use vstd::prelude::*;
use crate::auth::{AuthLevel, AuthView};
use crate::handlers::commands;
use crate::handlers::community_admin;
use crate::handlers::community_admin::{InviteView, StepView};
use crate::handlers::moderation_laws;
use crate::json::JsonView;
use crate::{handlers, number, text};

verus! {

/// What is shown is never longer than it may be: a longer text is cut and ends in dots.
pub proof fn law_long_text_is_cut(s: Seq<char>, max: usize)
    requires
        text::ascii_only(s),
        max >= 3,
    ensures
        s.len() <= max ==> community_admin::clipped(s, max) == Some(s),
        s.len() > max ==> community_admin::clipped(s, max) == Some(s.take(max - 3) + "..."@),
        community_admin::clipped(s, max) matches Some(t) && t.len() <= max,
{
    reveal_strlit("...");
    text::lemma_ascii_bytes(s, s.len() as int);
    if s.len() > max {
        text::lemma_ascii_bytes(s, max - 3);
    }
}

proof fn lemma_subs()
    ensures
        "create"@.len() == 6,
        "info"@.len() == 4,
        "leave"@.len() == 5,
        "dissolve"@.len() == 8,
        text::unspaced("create"@),
        text::unspaced("info"@),
        text::unspaced("leave"@),
        text::unspaced("dissolve"@),
{
    reveal_strlit("create");
    reveal_strlit("info");
    reveal_strlit("leave");
    reveal_strlit("dissolve");
}

/// The owner creates a community under the name that is given, and leaves or dissolves the one the
/// command came from; anybody is told of it.
pub proof fn law_owner_commands_communities(
    auth: Option<AuthView>,
    npub: Seq<char>,
    id: Seq<char>,
    name: Seq<char>,
)
    requires
        commands::permitted(auth, npub, Some(id), AuthLevel::Owner),
        name.len() > 0,
        text::trimmed(name) == name,
    ensures
        community_admin::community_step(auth, npub, Some(id), "create"@.push(' ') + name)
            == StepView::Create(name),
        community_admin::community_step(auth, npub, Some(id), "leave"@) == StepView::Leave(id),
        community_admin::community_step(auth, npub, Some(id), "dissolve"@) == StepView::Dissolve(id),
        community_admin::community_step(auth, npub, Some(id), "info"@) == StepView::Info(id),
{
    lemma_subs();
    text::law_first_word_is_cut("create"@, ' ', name);
    text::law_first_word_is_cut("leave"@, ' ', name);
    text::law_first_word_is_cut("dissolve"@, ' ', name);
    text::law_first_word_is_cut("info"@, ' ', name);
}

/// Nobody but the owner creates, leaves or dissolves one, and outside a community there is none to
/// leave, dissolve or tell of.
pub proof fn law_others_command_no_community(
    auth: Option<AuthView>,
    npub: Seq<char>,
    community: Option<Seq<char>>,
    args: Seq<char>,
)
    ensures
        !commands::permitted(auth, npub, community, AuthLevel::Owner)
            ==> community_admin::community_step(auth, npub, community, args) is Reply
            || community_admin::community_step(auth, npub, community, args) is Info,
        community is None ==> community_admin::community_step(auth, npub, community, args) is Reply
            || community_admin::community_step(auth, npub, community, args) is Create,
        community_admin::community_step(auth, npub, community, args) matches StepView::Leave(id)
            ==> community == Some(id),
        community_admin::community_step(auth, npub, community, args) matches StepView::Dissolve(id)
            ==> community == Some(id),
        community_admin::community_step(auth, npub, community, args) matches StepView::Info(id)
            ==> community == Some(id),
{
}

/// An authorized user invites whom they name, and makes a link where they name nobody; a user without
/// that right and one outside a community do neither.
pub proof fn law_invitation_is_made(
    auth: Option<AuthView>,
    npub: Seq<char>,
    id: Seq<char>,
    whom: Seq<char>,
)
    requires
        moderation_laws::names_member(whom),
    ensures
        commands::permitted(auth, npub, Some(id), AuthLevel::Authorized)
            ==> community_admin::invite_step(auth, npub, Some(id), whom) == InviteView::Invite(whom),
        commands::permitted(auth, npub, Some(id), AuthLevel::Authorized)
            ==> community_admin::invite_step(auth, npub, Some(id), Seq::empty()) == InviteView::Link,
        !commands::permitted(auth, npub, Some(id), AuthLevel::Authorized)
            ==> community_admin::invite_step(auth, npub, Some(id), whom) is Reply,
        community_admin::invite_step(auth, npub, None, whom) is Reply,
{
    reveal_strlit("npub1");
    reveal_strlit("nostr:");
    let none = Seq::<char>::empty();
    assert(whom.take(5)[0] == 'n' && whom.take(5)[1] == 'p');
    assert(whom[0] == 'n' && whom[1] == 'p');
    assert("npub1"@ =~= whom.subrange(0, 5));
    if "nostr:"@.is_prefix_of(whom) {
        assert(whom.subrange(0, 6)[1] == 'o');
    }
    assert(none + whom + none =~= whom);
    assert(whom[whom.len() - 1] == whom.last());
    text::lemma_trim_around(none, whom, none);
    assert(text::trimmed(none) =~= none);
}

proof fn lemma_summary(list: Seq<JsonView>, id: Seq<char>, from: int, at: int)
    requires
        0 <= from <= at < list.len(),
        list[at].text_at("community_id"@) == Some(id),
        forall|j: int|
            from <= j < at ==> (#[trigger] list[j]).text_at("community_id"@) != Some(id),
    ensures
        community_admin::summary_from(list, id, from) == Some(list[at]),
    decreases at - from,
{
    if from < at {
        lemma_summary(list, id, from + 1, at);
    }
}

/// A community is told of by the summary that has its id, wherever it stands in the list.
pub proof fn law_summary_is_found(list: Seq<JsonView>, id: Seq<char>, at: int)
    requires
        0 <= at < list.len(),
        list[at].text_at("community_id"@) == Some(id),
        forall|j: int| 0 <= j < at ==> (#[trigger] list[j]).text_at("community_id"@) != Some(id),
    ensures
        community_admin::summary_from(list, id, 0) == Some(list[at]),
{
    lemma_summary(list, id, 0, at);
}

/// The members are counted, and the first fifty of them are listed; how many more there are is told.
pub proof fn law_members_are_listed(members: Seq<Seq<char>>)
    ensures
        ({
            let lines = community_admin::member_lines(members);
            &&& lines[0] == "👥 **Members** ("@ + number::decimal(members.len()) + ")"@
            &&& members.len() <= 50 ==> lines.len() == 1 + members.len()
            &&& members.len() > 50 ==> lines.len() == 52 && lines[51] == "  ... and "@
                + number::decimal((members.len() - 50) as nat) + " more"@
            &&& forall|i: int|
                0 <= i < members.len() && i < 50 ==> #[trigger] lines[1 + i] == "  • "@
                    + handlers::community_cmds::shortened(members[i])
        }),
{
}

/// The channels of every community are listed in turn, or of the one that is asked for alone.
pub proof fn law_channels_are_listed(list: Seq<JsonView>, c: JsonView, id: Seq<char>)
    ensures
        community_admin::all_lines(list.push(c), None) == community_admin::all_lines(list, None)
            + community_admin::community_lines(c),
        c.text_at("community_id"@) == Some(id) ==> community_admin::all_lines(list.push(c), Some(id))
            == community_admin::all_lines(list, Some(id)) + community_admin::community_lines(c),
        c.text_at("community_id"@) matches Some(other) ==> other != id ==> community_admin::all_lines(
            list.push(c),
            Some(id),
        ) == community_admin::all_lines(list, Some(id)),
{
    assert(list.push(c).drop_last() =~= list);
}

/// A channel is listed by its name and its id.
pub proof fn law_channel_is_listed_by_name(
    channels: Seq<JsonView>,
    i: int,
    name: Seq<char>,
    id: Seq<char>,
)
    requires
        0 <= i < channels.len(),
        channels[i].text_at("name"@) == Some(name),
        channels[i].text_at("id"@) == Some(id),
    ensures
        community_admin::channel_lines(channels).len() == channels.len(),
        community_admin::channel_lines(channels)[i] == "  • #"@ + name + " ("@ + id + ")"@,
{
}

} // verus!
