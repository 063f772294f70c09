//! Managing communities.

use vstd::prelude::*;
use crate::auth::{AuthLevel, AuthManager, AuthView};
use crate::handlers::{commands, community_cmds};
use crate::json::{Json, JsonView};
use crate::{auth, handlers, json, number, text};

verus! {

// ---------------------------------------------------------------------------
// JSON for people to read
// ---------------------------------------------------------------------------

/// A JSON value as it is shown: objects and arrays over several lines.
pub open spec fn json_shown(j: JsonView) -> Seq<char> {
    if j is Object || j is Array {
        json::json_pretty(j)
    } else {
        json::json_compact(j)
    }
}

/// Where a text is cut that is longer than `max` bytes: three bytes earlier.
pub open spec fn cut_at(max: usize) -> int {
    if max >= 3 {
        max - 3
    } else {
        0
    }
}

/// A text of at most `max` bytes; a longer one is cut, and nothing where no character ends there.
pub open spec fn clipped(s: Seq<char>, max: usize) -> Option<Seq<char>> {
    if text::byte_len(s) <= max {
        Some(s)
    } else if text::at_boundary(s, cut_at(max)) {
        Some(text::first_bytes(s, cut_at(max)) + "..."@)
    } else {
        None
    }
}

/// Clips a text to `max` bytes.
pub fn clip(s: &str, max: usize) -> (r: Option<String>)
    ensures
        text::opt_view(r) == clipped(s@, max),
{
    if text::len_bytes(s) <= max {
        return Some(s.to_owned());
    }
    let n: usize = if max >= 3 {
        max - 3
    } else {
        0
    };
    if s.is_char_boundary(n) {
        let (head, _) = text::split_at_byte(s, n);
        Some(text::cat2(head, "..."))
    } else {
        None
    }
}

/// A JSON value for people to read, in at most `max` bytes.
pub fn format_json_value(val: &Json, max: usize) -> (r: Option<String>)
    ensures
        text::opt_view(r) == clipped(json_shown(val@), max),
{
    let s = match val {
        Json::Object(_) => json::pretty(val),
        Json::Array(_) => json::pretty(val),
        _ => json::compact(val),
    };
    clip(s.as_str(), max)
}

// ---------------------------------------------------------------------------
// !community
// ---------------------------------------------------------------------------

/// What `!community` leads to.
pub enum CommunityStep {
    Reply(String),
    /// Create a community of this name.
    Create(String),
    /// Describe this community.
    Info(String),
    Leave(String),
    Dissolve(String),
}

/// What `!community` leads to.
pub enum StepView {
    Reply(Seq<char>),
    Create(Seq<char>),
    Info(Seq<char>),
    Leave(Seq<char>),
    Dissolve(Seq<char>),
}

impl View for CommunityStep {
    type V = StepView;

    open spec fn view(&self) -> StepView {
        match self {
            CommunityStep::Reply(s) => StepView::Reply(s@),
            CommunityStep::Create(s) => StepView::Create(s@),
            CommunityStep::Info(s) => StepView::Info(s@),
            CommunityStep::Leave(s) => StepView::Leave(s@),
            CommunityStep::Dissolve(s) => StepView::Dissolve(s@),
        }
    }
}

/// What follows the first word of the arguments.
pub open spec fn rest_of(args: Seq<char>) -> Seq<char> {
    text::or_else(text::tail_words(args), ""@)
}

/// What the arguments of `!community` lead to. Everything but `info` is for the owner.
pub open spec fn community_step(
    auth: Option<AuthView>,
    npub: Seq<char>,
    community: Option<Seq<char>>,
    args: Seq<char>,
) -> StepView {
    let sub = text::head_word(args);
    let owner = commands::permitted(auth, npub, community, AuthLevel::Owner);
    if sub == "create"@ {
        if !owner {
            StepView::Reply("⛔ Owner only."@)
        } else if text::trimmed(rest_of(args)).len() == 0 {
            StepView::Reply("Usage: !community create <name>"@)
        } else {
            StepView::Create(text::trimmed(rest_of(args)))
        }
    } else if sub == "info"@ {
        match community {
            Some(id) => StepView::Info(id),
            None => StepView::Reply(handlers::no_community()),
        }
    } else if sub == "leave"@ {
        if !owner {
            StepView::Reply("⛔ Owner only."@)
        } else {
            match community {
                Some(id) => StepView::Leave(id),
                None => StepView::Reply(handlers::no_community()),
            }
        }
    } else if sub == "dissolve"@ {
        if !owner {
            StepView::Reply("⛔ Owner only."@)
        } else {
            match community {
                Some(id) => StepView::Dissolve(id),
                None => StepView::Reply(handlers::no_community()),
            }
        }
    } else {
        StepView::Reply(
            "Usage: !community <create|info|leave|dissolve>\n• create <name> — Create a new v2 community (Owner)\n• info — Show community details\n• leave — Leave this community (Owner)\n• dissolve — Permanently dissolve (Owner, irreversible!)"@,
        )
    }
}

/// Decides on `!community`.
pub fn v2_community_command(
    auth: Option<&AuthManager>,
    npub: &str,
    community: Option<&str>,
    args: &str,
) -> (r: CommunityStep)
    ensures
        r@ == community_step(
            auth::opt_auth(auth),
            npub@,
            text::opt_str_view(community),
            args@,
        ),
{
    let (sub, tail) = text::split_word(args);
    let denied = commands::require_auth(auth, npub, community, AuthLevel::Owner);
    if text::same(sub, "create") {
        if let Some(why) = denied {
            return CommunityStep::Reply(why);
        }
        let rest = text::own_or(tail, "");
        let name = text::trim(rest.as_str());
        return if name.is_empty() {
            CommunityStep::Reply("Usage: !community create <name>".to_owned())
        } else {
            CommunityStep::Create(name.to_owned())
        };
    }
    if text::same(sub, "info") {
        return match community {
            Some(id) => CommunityStep::Info(id.to_owned()),
            None => CommunityStep::Reply(handlers::outside_community()),
        };
    }
    if text::same(sub, "leave") {
        if let Some(why) = denied {
            return CommunityStep::Reply(why);
        }
        return match community {
            Some(id) => CommunityStep::Leave(id.to_owned()),
            None => CommunityStep::Reply(handlers::outside_community()),
        };
    }
    if text::same(sub, "dissolve") {
        if let Some(why) = denied {
            return CommunityStep::Reply(why);
        }
        return match community {
            Some(id) => CommunityStep::Dissolve(id.to_owned()),
            None => CommunityStep::Reply(handlers::outside_community()),
        };
    }
    CommunityStep::Reply(
        "Usage: !community <create|info|leave|dissolve>\n• create <name> — Create a new v2 community (Owner)\n• info — Show community details\n• leave — Leave this community (Owner)\n• dissolve — Permanently dissolve (Owner, irreversible!)".to_owned(),
    )
}

/// Nobody but the owner creates, leaves or dissolves a community.
pub proof fn law_owner_manages_communities(
    auth: AuthView,
    npub: Seq<char>,
    community: Option<Seq<char>>,
    args: Seq<char>,
)
    requires
        npub != auth.owner,
    ensures
        match community_step(Some(auth), npub, community, args) {
            StepView::Create(_) => false,
            StepView::Leave(_) => false,
            StepView::Dissolve(_) => false,
            _ => true,
        },
{
}

/// The id in a summary of a community.
pub open spec fn summary_id(summary: JsonView) -> Seq<char> {
    text::or_else(summary.text_at("community_id"@), "?"@)
}

fn id_of(summary: &Json) -> (r: String)
    ensures
        r@ == summary_id(summary@),
{
    text::own_or(summary.str_at("community_id"), "?")
}

/// The reply once a community was created, or why not.
pub fn created_reply(name: &str, outcome: Result<&Json, &str>) -> (r: String)
    ensures
        r@ == match outcome {
            Ok(summary) => "✅ Created v2 community: "@ + name@ + "\n🆔 ID: "@ + summary_id(summary@),
            Err(e) => "⚠️ Failed to create community: "@ + e@,
        },
{
    match outcome {
        Ok(summary) => text::cat4(
            "✅ Created v2 community: ",
            name,
            "\n🆔 ID: ",
            id_of(summary).as_str(),
        ),
        Err(e) => text::cat2("⚠️ Failed to create community: ", e),
    }
}

/// The reply once the bot left a community, or why not.
pub fn left_reply(id: &str, error: Option<&str>) -> (r: String)
    ensures
        r@ == match error {
            None => "👋 Left community "@ + id@,
            Some(e) => "⚠️ Failed to leave community: "@ + e@,
        },
{
    match error {
        None => text::cat2("👋 Left community ", id),
        Some(e) => text::cat2("⚠️ Failed to leave community: ", e),
    }
}

/// The reply once a community was dissolved, or why not.
pub fn dissolved_reply(id: &str, error: Option<&str>) -> (r: String)
    ensures
        r@ == match error {
            None => "💀 Community "@ + id@ + " has been dissolved. This is irreversible!"@,
            Some(e) => "⚠️ Failed to dissolve community: "@ + e@,
        },
{
    match error {
        None => text::cat3("💀 Community ", id, " has been dissolved. This is irreversible!"),
        Some(e) => text::cat2("⚠️ Failed to dissolve community: ", e),
    }
}

/// The first summary with an id, from summary `from` on.
pub open spec fn summary_from(list: Seq<JsonView>, id: Seq<char>, from: int) -> Option<JsonView>
    decreases list.len() - from,
{
    if from < 0 || from >= list.len() {
        None
    } else if list[from].text_at("community_id"@) == Some(id) {
        Some(list[from])
    } else {
        summary_from(list, id, from + 1)
    }
}

fn find_summary<'a>(list: &'a Vec<Json>, id: &str) -> (r: Option<&'a Json>)
    ensures
        match r {
            Some(j) => summary_from(json::json_views(list@), id@, 0) == Some(j@),
            None => summary_from(json::json_views(list@), id@, 0) is None,
        },
{
    let ghost all = json::json_views(list@);
    let mut i: usize = 0;
    while i < list.len()
        invariant
            i <= list.len(),
            all == json::json_views(list@),
            summary_from(all, id@, 0) == summary_from(all, id@, i as int),
        decreases list.len() - i,
    {
        proof {
            assert(all[i as int] == list@[i as int]@);
        }
        if let Some(found) = list[i].str_at("community_id") {
            if text::same(found, id) {
                return Some(&list[i]);
            }
        }
        i = i + 1;
    }
    None
}

/// The names of the first channels, a line each.
pub open spec fn channel_names(channels: Seq<JsonView>, count: int) -> Seq<char>
    decreases count,
{
    if count <= 0 {
        Seq::empty()
    } else {
        channel_names(channels, count - 1) + (match channels[count - 1].text_at("name"@) {
            Some(name) => "\n   • #"@ + name,
            None => Seq::empty(),
        })
    }
}

/// The version and the channels in a summary.
pub open spec fn summary_text(summary: JsonView) -> Seq<char> {
    (match summary.text_at("version"@) {
        Some(v) => "\n🔄 Protocol: v"@ + v,
        None => ""@,
    }) + (match summary.at("channels"@).items() {
        Some(channels) => "\n📝 Channels: "@ + number::decimal(channels.len()) + channel_names(
            channels,
            if channels.len() < 5 {
                channels.len() as int
            } else {
                5
            },
        ),
        None => ""@,
    })
}

fn show_channel_names(channels: &Vec<Json>) -> (r: String)
    ensures
        ({
            let all = json::json_views(channels@);
            r@ == channel_names(
                all,
                if all.len() < 5 {
                    all.len() as int
                } else {
                    5
                },
            )
        }),
{
    let ghost all = json::json_views(channels@);
    let mut out = String::new();
    let mut i: usize = 0;
    while i < channels.len() && i < 5
        invariant
            i <= channels.len(),
            i <= 5,
            all == json::json_views(channels@),
            out@ == channel_names(all, i as int),
        decreases channels.len() - i,
    {
        proof {
            assert(all[i as int] == channels@[i as int]@);
        }
        if let Some(name) = channels[i].str_at("name") {
            out.push_str(text::cat2("\n   • #", name).as_str());
        } else {
            proof {
                assert(out@ =~= out@ + Seq::<char>::empty());
            }
        }
        i = i + 1;
    }
    proof {
        assert(all.len() == channels.len());
    }
    out
}

fn show_summary(summary: &Json) -> (r: String)
    ensures
        r@ == summary_text(summary@),
{
    let version = match summary.str_at("version") {
        Some(v) => text::cat2("\n🔄 Protocol: v", v),
        None => "".to_owned(),
    };
    let channels = match summary.get("channels") {
        Some(c) => match c.as_array() {
            Some(list) => {
                let ghost all = json::json_views(list@);
                proof {
                    assert(all.len() == list.len());
                }
                text::cat3(
                    "\n📝 Channels: ",
                    number::show_size(list.len()).as_str(),
                    show_channel_names(list).as_str(),
                )
            },
            None => "".to_owned(),
        },
        None => "".to_owned(),
    };
    text::cat2(version.as_str(), channels.as_str())
}

/// A titled JSON value, if there is one; nothing where it cannot be clipped.
pub open spec fn json_part(title: Seq<char>, j: Option<JsonView>) -> Option<Seq<char>> {
    match j {
        None => Some(""@),
        Some(v) => match clipped(json_shown(v), 200) {
            Some(s) => Some(title + s),
            None => None,
        },
    }
}

fn show_json_part(title: &str, j: Option<&Json>) -> (r: Option<String>)
    ensures
        text::opt_view(r) == json_part(
            title@,
            match j {
                Some(v) => Some(v@),
                None => None,
            },
        ),
{
    match j {
        None => Some("".to_owned()),
        Some(v) => match format_json_value(v, 200) {
            Some(s) => Some(text::cat2(title, s.as_str())),
            None => None,
        },
    }
}

/// The description of a community.
pub open spec fn info_text(
    id: Seq<char>,
    members: usize,
    list: Seq<JsonView>,
    caps: Seq<char>,
    roles: Seq<char>,
) -> Seq<char> {
    "📊 **Community Info**\n🆔 ID: "@ + id + "\n👥 Members: "@ + number::decimal(members as nat) + (
    match summary_from(list, id, 0) {
        Some(s) => summary_text(s),
        None => ""@,
    }) + caps + roles
}

/// The view of an optional reference to a value.
pub open spec fn opt_ref(j: Option<&Json>) -> Option<JsonView> {
    match j {
        Some(v) => Some(v@),
        None => None,
    }
}

/// Answers `!community info`. There is no answer where the capabilities or roles cannot be
/// clipped.
pub fn info_reply(
    id: &str,
    members: usize,
    list: &Vec<Json>,
    caps: Option<&Json>,
    roles: Option<&Json>,
) -> (r: Option<String>)
    ensures
        text::opt_view(r) == match (
            json_part("\n⚡ Capabilities: "@, opt_ref(caps)),
            json_part("\n🎭 Roles: "@, opt_ref(roles)),
        ) {
            (Some(c), Some(o)) => Some(info_text(id@, members, json::json_views(list@), c, o)),
            _ => None,
        },
{
    let c = match show_json_part("\n⚡ Capabilities: ", caps) {
        Some(s) => s,
        None => {
            return None;
        },
    };
    let o = match show_json_part("\n🎭 Roles: ", roles) {
        Some(s) => s,
        None => {
            return None;
        },
    };
    let summary = match find_summary(list, id) {
        Some(s) => show_summary(s),
        None => "".to_owned(),
    };
    Some(
        text::cat7(
            "📊 **Community Info**\n🆔 ID: ",
            id,
            "\n👥 Members: ",
            number::show_size(members).as_str(),
            summary.as_str(),
            c.as_str(),
            o.as_str(),
        ),
    )
}

// ---------------------------------------------------------------------------
// !invite and !join
// ---------------------------------------------------------------------------

/// What `!invite` leads to.
pub enum InviteStep {
    Reply(String),
    /// Make an invitation anyone can use.
    Link,
    /// Invite this user.
    Invite(String),
}

/// What `!invite` leads to.
pub enum InviteView {
    Reply(Seq<char>),
    Link,
    Invite(Seq<char>),
}

impl View for InviteStep {
    type V = InviteView;

    open spec fn view(&self) -> InviteView {
        match self {
            InviteStep::Reply(s) => InviteView::Reply(s@),
            InviteStep::Link => InviteView::Link,
            InviteStep::Invite(s) => InviteView::Invite(s@),
        }
    }
}

/// What the arguments of `!invite` lead to.
pub open spec fn invite_step(
    auth: Option<AuthView>,
    npub: Seq<char>,
    community: Option<Seq<char>>,
    args: Seq<char>,
) -> InviteView {
    if !commands::permitted(auth, npub, community, AuthLevel::Authorized) {
        InviteView::Reply(commands::denial(AuthLevel::Authorized))
    } else if community is None {
        InviteView::Reply(handlers::no_community())
    } else if text::trimmed(args).len() == 0 {
        InviteView::Link
    } else if "npub1"@.is_prefix_of(handlers::plain_npub(text::trimmed(args))) {
        InviteView::Invite(handlers::plain_npub(text::trimmed(args)))
    } else {
        InviteView::Reply("⚠️ Invalid npub. Usage: !invite <npub1...>"@)
    }
}

/// Decides on `!invite`.
pub fn v2_invite_command(
    auth: Option<&AuthManager>,
    npub: &str,
    community: Option<&str>,
    args: &str,
) -> (r: InviteStep)
    ensures
        r@ == invite_step(auth::opt_auth(auth), npub@, text::opt_str_view(community), args@),
{
    if let Some(why) = commands::require_auth(auth, npub, community, AuthLevel::Authorized) {
        return InviteStep::Reply(why);
    }
    if community.is_none() {
        return InviteStep::Reply(handlers::outside_community());
    }
    let target = text::trim(args);
    if target.is_empty() {
        return InviteStep::Link;
    }
    let who = handlers::normalize_npub(target);
    if text::starts_with(who.as_str(), "npub1") {
        InviteStep::Invite(who)
    } else {
        InviteStep::Reply("⚠️ Invalid npub. Usage: !invite <npub1...>".to_owned())
    }
}

/// The reply with an invitation, or why there is none.
pub fn link_reply(outcome: Result<&str, &str>) -> (r: String)
    ensures
        r@ == match outcome {
            Ok(link) => "🔗 Invite link: "@ + link@,
            Err(e) => "⚠️ Failed to create invite: "@ + e@,
        },
{
    match outcome {
        Ok(link) => text::cat2("🔗 Invite link: ", link),
        Err(e) => text::cat2("⚠️ Failed to create invite: ", e),
    }
}

/// The reply once a user was invited, or why not.
pub fn invited_reply(npub: &str, error: Option<&str>) -> (r: String)
    ensures
        r@ == match error {
            None => "✅ Invited "@ + npub@ + " to this community."@,
            Some(e) => "⚠️ Failed to invite "@ + npub@ + ": "@ + e@,
        },
{
    match error {
        None => text::cat3("✅ Invited ", npub, " to this community."),
        Some(e) => text::cat4("⚠️ Failed to invite ", npub, ": ", e),
    }
}

/// The invitation that `!join` names; nothing where it names none, which is answered with how to
/// use it.
pub fn v2_join_command(args: &str) -> (r: Result<String, String>)
    ensures
        match r {
            Ok(link) => text::trimmed(args@).len() > 0 && link@ == text::trimmed(args@),
            Err(usage) => text::trimmed(args@).len() == 0 && usage@
                == "Usage: !join <invite_link>"@,
        },
{
    let link = text::trim(args);
    if link.is_empty() {
        Err("Usage: !join <invite_link>".to_owned())
    } else {
        Ok(link.to_owned())
    }
}

/// The reply once a community was joined, or why not.
pub fn joined_reply(outcome: Result<&Json, &str>) -> (r: String)
    ensures
        r@ == match outcome {
            Ok(summary) => "✅ Joined community: "@ + summary_id(summary@),
            Err(e) => "⚠️ Failed to join community: "@ + e@,
        },
{
    match outcome {
        Ok(summary) => text::cat2("✅ Joined community: ", id_of(summary).as_str()),
        Err(e) => text::cat2("⚠️ Failed to join community: ", e),
    }
}

// ---------------------------------------------------------------------------
// !members, !channels, !roles and !caps
// ---------------------------------------------------------------------------

/// How many members are shown.
pub open spec fn shown_members(members: Seq<Seq<char>>) -> int {
    if members.len() < 50 {
        members.len() as int
    } else {
        50
    }
}

/// The members as lines.
pub open spec fn member_lines(members: Seq<Seq<char>>) -> Seq<Seq<char>> {
    seq!["👥 **Members** ("@ + number::decimal(members.len()) + ")"@] + Seq::new(
        shown_members(members) as nat,
        |i: int| "  • "@ + community_cmds::shortened(members[i]),
    ) + (if members.len() > 50 {
        seq!["  ... and "@ + number::decimal((members.len() - 50) as nat) + " more"@]
    } else {
        Seq::empty()
    })
}

/// Whether the names that are shown can be shortened.
pub open spec fn members_readable(members: Seq<Seq<char>>) -> bool {
    forall|i: int|
        0 <= i < shown_members(members) ==> community_cmds::shortens(#[trigger] members[i])
}

/// Answers `!members`, given the members where there is a community. There is no answer where a
/// name cannot be shortened.
pub fn v2_members_command(members: Option<&Vec<String>>) -> (r: Option<String>)
    ensures
        text::opt_view(r) == match members {
            None => Some(handlers::no_community()),
            Some(v) => {
                let all = text::views(v@);
                if all.len() == 0 {
                    Some("📦 No members found."@)
                } else if members_readable(all) {
                    Some(text::joined(member_lines(all), "\n"@))
                } else {
                    None
                }
            },
        },
{
    let v = match members {
        Some(v) => v,
        None => {
            return Some(handlers::outside_community());
        },
    };
    let ghost all = text::views(v@);
    proof {
        assert(all.len() == v.len());
    }
    if v.len() == 0 {
        return Some("📦 No members found.".to_owned());
    }
    let mut lines: Vec<String> = Vec::new();
    let head = text::cat3("👥 **Members** (", number::show_size(v.len()).as_str(), ")");
    let ghost first = head@;
    lines.push(head);
    let mut i: usize = 0;
    while i < v.len() && i < 50
        invariant
            i <= v.len(),
            i <= 50,
            members == Some(v),
            all == text::views(v@),
            lines.len() == i + 1,
            lines@[0]@ == first,
            forall|k: int| 0 <= k < i ==> community_cmds::shortens(#[trigger] all[k]),
            forall|k: int|
                1 <= k <= i ==> (#[trigger] lines@[k])@ == "  • "@ + community_cmds::shortened(
                    all[k - 1],
                ),
        decreases v.len() - i,
    {
        let npub = v[i].as_str();
        proof {
            assert(all[i as int] == npub@);
        }
        if !community_cmds::can_shorten(npub) {
            proof {
                assert(!community_cmds::shortens(all[i as int]));
                assert(i < shown_members(all));
            }
            return None;
        }
        lines.push(text::cat2("  • ", community_cmds::short_npub(npub).as_str()));
        i = i + 1;
    }
    let ghost body = text::views(lines@);
    let n: usize = v.len();
    if n > 50 {
        let more = text::cat3("  ... and ", number::show_size(n - 50).as_str(), " more");
        let ghost last = more@;
        lines.push(more);
        proof {
            assert(text::views(lines@) =~= body.push(last));
        }
    }
    proof {
        assert(text::views(lines@) =~= member_lines(all));
    }
    Some(text::join(&lines, "\n"))
}

/// The channels of a community as lines.
pub open spec fn channel_lines(channels: Seq<JsonView>) -> Seq<Seq<char>> {
    channels.map_values(
        |c: JsonView|
            "  • #"@ + text::or_else(c.text_at("name"@), "?"@) + " ("@ + text::or_else(
                c.text_at("id"@),
                "?"@,
            ) + ")"@,
    )
}

/// A community and its channels as lines.
pub open spec fn community_lines(c: JsonView) -> Seq<Seq<char>> {
    seq![
        "🏘️ "@ + text::or_else(c.text_at("name"@), "Unnamed"@) + " ("@ + summary_id(c) + ")"@,
    ] + (match c.at("channels"@).items() {
        Some(channels) => channel_lines(channels),
        None => Seq::empty(),
    })
}

/// The communities as lines: all of them, or one.
pub open spec fn all_lines(list: Seq<JsonView>, target: Option<Seq<char>>) -> Seq<Seq<char>>
    decreases list.len(),
{
    if list.len() == 0 {
        Seq::empty()
    } else if target is Some && target->0 != summary_id(list.last()) {
        all_lines(list.drop_last(), target)
    } else {
        all_lines(list.drop_last(), target) + community_lines(list.last())
    }
}

/// The reply to `!channels`.
pub open spec fn channels_text(list: Seq<JsonView>, target: Option<Seq<char>>) -> Seq<char> {
    if list.len() == 0 {
        "📦 No communities found."@
    } else {
        text::joined(
            seq!["📝 **Channels**"@] + (if all_lines(list, target).len() == 0 {
                seq!["No channels found."@]
            } else {
                all_lines(list, target)
            }),
            "\n"@,
        )
    }
}

fn add_community(lines: &mut Vec<String>, c: &Json)
    ensures
        text::views(final(lines)@) == text::views(old(lines)@) + community_lines(c@),
{
    let ghost before = text::views(lines@);
    let name = text::own_or(c.str_at("name"), "Unnamed");
    let head = text::cat5("🏘️ ", name.as_str(), " (", id_of(c).as_str(), ")");
    let ghost first = head@;
    lines.push(head);
    let ghost mid = text::views(lines@);
    proof {
        assert(mid =~= before + seq![first]);
    }
    let mut shown = false;
    if let Some(value) = c.get("channels") {
        if let Some(channels) = value.as_array() {
            let ghost all = json::json_views(channels@);
            let mut i: usize = 0;
            shown = true;
            proof {
                assert(mid =~= mid + channel_lines(all.take(0)));
            }
            while i < channels.len()
                invariant
                    i <= channels.len(),
                    all == json::json_views(channels@),
                    text::views(lines@) == mid + channel_lines(all.take(i as int)),
                decreases channels.len() - i,
            {
                let ghost so_far = text::views(lines@);
                let ch = &channels[i];
                let ch_name = text::own_or(ch.str_at("name"), "?");
                let ch_id = text::own_or(ch.str_at("id"), "?");
                let line = text::cat5("  • #", ch_name.as_str(), " (", ch_id.as_str(), ")");
                let ghost written = line@;
                lines.push(line);
                proof {
                    assert(all[i as int] == ch@);
                    assert(text::views(lines@) =~= so_far.push(written));
                    assert(channel_lines(all.take(i + 1)) =~= channel_lines(
                        all.take(i as int),
                    ).push(written));
                    assert(text::views(lines@) =~= mid + channel_lines(all.take(i + 1)));
                }
                i = i + 1;
            }
            proof {
                assert(all.take(i as int) =~= all);
                assert(text::views(lines@) =~= before + community_lines(c@));
            }
        }
    }
    proof {
        if !shown {
            assert(text::views(lines@) =~= before + community_lines(c@));
        }
    }
}

/// Answers `!channels`: the channels of the community at hand, or of all.
pub fn v2_channels_command(list: &Vec<Json>, target: Option<&str>) -> (r: String)
    ensures
        r@ == channels_text(json::json_views(list@), text::opt_str_view(target)),
{
    let ghost all = json::json_views(list@);
    let ghost which = text::opt_str_view(target);
    proof {
        assert(all.len() == list.len());
    }
    if list.len() == 0 {
        return "📦 No communities found.".to_owned();
    }
    let mut lines: Vec<String> = Vec::new();
    lines.push("📝 **Channels**".to_owned());
    let ghost head = text::views(lines@);
    let mut i: usize = 0;
    proof {
        assert(all.take(0) =~= Seq::empty());
        assert(head =~= seq!["📝 **Channels**"@]);
        assert(head =~= head + all_lines(all.take(0), which));
    }
    while i < list.len()
        invariant
            i <= list.len(),
            all == json::json_views(list@),
            which == text::opt_str_view(target),
            text::views(lines@) == head + all_lines(all.take(i as int), which),
        decreases list.len() - i,
    {
        let comm = &list[i];
        let ghost so_far = all_lines(all.take(i as int), which);
        proof {
            assert(all.take(i + 1).drop_last() =~= all.take(i as int));
            assert(all.take(i + 1).last() == comm@);
        }
        let wanted: bool = match target {
            Some(id) => text::same(id_of(comm).as_str(), id),
            None => true,
        };
        if wanted {
            add_community(&mut lines, comm);
            proof {
                assert(text::views(lines@) =~= head + (so_far + community_lines(comm@)));
            }
        }
        i = i + 1;
    }
    proof {
        assert(all.take(i as int) =~= all);
    }
    let ghost full = text::views(lines@);
    proof {
        assert(full.len() == lines.len());
    }
    if lines.len() == 1 {
        lines.push("No channels found.".to_owned());
        proof {
            assert(text::views(lines@) =~= head + seq!["No channels found."@]);
        }
    }
    text::join(&lines, "\n")
}

/// The reply with a JSON value, or why there is none; nothing where it cannot be clipped.
pub open spec fn value_text(title: Seq<char>, failure: Seq<char>, outcome: Result<&Json, &str>) -> Option<
    Seq<char>,
> {
    match outcome {
        Ok(v) => match clipped(json_shown(v@), 500) {
            Some(s) => Some(title + s),
            None => None,
        },
        Err(e) => Some(failure + e@),
    }
}

fn show_value(title: &str, failure: &str, outcome: Result<&Json, &str>) -> (r: Option<String>)
    ensures
        text::opt_view(r) == value_text(title@, failure@, outcome),
{
    match outcome {
        Ok(v) => match format_json_value(v, 500) {
            Some(s) => Some(text::cat2(title, s.as_str())),
            None => None,
        },
        Err(e) => Some(text::cat2(failure, e)),
    }
}

/// Answers `!roles`, given the roles where there is a community.
pub fn v2_roles_command(outcome: Option<Result<&Json, &str>>) -> (r: Option<String>)
    ensures
        text::opt_view(r) == match outcome {
            None => Some(handlers::no_community()),
            Some(o) => value_text("🎭 **Roles**\n"@, "⚠️ Failed to retrieve roles: "@, o),
        },
{
    match outcome {
        None => Some(handlers::outside_community()),
        Some(o) => show_value("🎭 **Roles**\n", "⚠️ Failed to retrieve roles: ", o),
    }
}

/// Answers `!caps`, given the capabilities where there is a community.
pub fn v2_caps_command(outcome: Option<Result<&Json, &str>>) -> (r: Option<String>)
    ensures
        text::opt_view(r) == match outcome {
            None => Some(handlers::no_community()),
            Some(o) => value_text(
                "⚡ **Capabilities**\n"@,
                "⚠️ Failed to retrieve capabilities: "@,
                o,
            ),
        },
{
    match outcome {
        None => Some(handlers::outside_community()),
        Some(o) => show_value(
            "⚡ **Capabilities**\n",
            "⚠️ Failed to retrieve capabilities: ",
            o,
        ),
    }
}

} // verus!
