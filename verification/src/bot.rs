//! What the bot decides when it starts.

use vstd::prelude::*;
use crate::community::{ChannelView, CommunityView, Database};
use crate::config::{AuthSection, BotConfig, BotSection, CommunitiesSection, V2Section};
use crate::json::{Json, JsonView};
use crate::{json, text};

verus! {

// ---------------------------------------------------------------------------
// Identity
// ---------------------------------------------------------------------------

/// The key in the file that the messenger keeps, where it holds one.
pub open spec fn saved_key(saved: Option<Seq<char>>) -> Option<Seq<char>> {
    match saved {
        Some(s) => if "nsec1"@.is_prefix_of(text::trimmed(s)) {
            Some(text::trimmed(s))
        } else {
            None
        },
        None => None,
    }
}

/// The bot's private key: that of the configuration or the environment, else the one that the
/// messenger keeps.
pub fn identity(config: &BotConfig, env: Option<&str>, saved: Option<&str>) -> (r: Option<String>)
    ensures
        text::opt_view(r) == match config.nsec_spec(text::opt_str_view(env)) {
            Some(n) => Some(n),
            None => saved_key(text::opt_str_view(saved)),
        },
{
    if let Some(n) = config.bot_nsec(env) {
        return Some(n);
    }
    if let Some(s) = saved {
        let t = text::trim(s);
        if text::starts_with(t, "nsec1") {
            return Some(t.to_owned());
        }
    }
    None
}

/// What a policy for invites by a list of users is called.
pub fn policy_name(policy: &str) -> (r: &'static str)
    ensures
        r@ == if policy@ == "authorized"@ {
            "authorized"@
        } else if policy@ == "whitelist"@ {
            "whitelist (legacy)"@
        } else if policy@ == ""@ {
            "owner (default)"@
        } else {
            "owner"@
        },
{
    if text::same(policy, "authorized") {
        "authorized"
    } else if text::same(policy, "whitelist") {
        "whitelist (legacy)"
    } else if text::same(policy, "") {
        "owner (default)"
    } else {
        "owner"
    }
}

/// The owner, where authorization is set up.
pub fn configured_owner(auth: &AuthSection) -> (r: Option<String>)
    ensures
        text::opt_view(r) == match auth.owner {
            Some(o) => if o@.len() > 0 {
                Some(o@)
            } else {
                None
            },
            None => None,
        },
{
    match &auth.owner {
        Some(o) => if o.as_str().is_empty() {
            None
        } else {
            Some(o.clone())
        },
        None => None,
    }
}

// ---------------------------------------------------------------------------
// Profile
// ---------------------------------------------------------------------------

/// A profile to publish.
pub struct Profile {
    pub name: String,
    pub picture: String,
    pub banner: String,
    pub about: String,
    pub lud16: String,
}

/// What a profile says.
pub struct ProfileView {
    pub name: Seq<char>,
    pub picture: Seq<char>,
    pub banner: Seq<char>,
    pub about: Seq<char>,
    pub lud16: Seq<char>,
}

impl View for Profile {
    type V = ProfileView;

    open spec fn view(&self) -> ProfileView {
        ProfileView {
            name: self.name@,
            picture: self.picture@,
            banner: self.banner@,
            about: self.about@,
            lud16: self.lud16@,
        }
    }
}

/// The profile that the configuration sets, if it sets any of it.
pub open spec fn profile_of(bot: BotSection) -> Option<ProfileView> {
    if bot.display_name is None && bot.picture is None && bot.banner is None && bot.about is None
        && bot.lud16 is None {
        None
    } else {
        Some(
            ProfileView {
                name: text::or_else(text::opt_view(bot.display_name), "Flagship"@),
                picture: text::or_else(text::opt_view(bot.picture), ""@),
                banner: text::or_else(text::opt_view(bot.banner), ""@),
                about: text::or_else(text::opt_view(bot.about), ""@),
                lud16: text::or_else(text::opt_view(bot.lud16), ""@),
            },
        )
    }
}

fn given_or(s: &Option<String>, other: &str) -> (r: String)
    ensures
        r@ == text::or_else(text::opt_view(*s), other@),
{
    match s {
        Some(t) => t.clone(),
        None => other.to_owned(),
    }
}

/// The profile that the configuration sets, if it sets any of it.
pub fn configured_profile(bot: &BotSection) -> (r: Option<Profile>)
    ensures
        match (profile_of(*bot), r) {
            (Some(want), Some(got)) => got@ == want,
            (None, None) => true,
            _ => false,
        },
{
    if bot.display_name.is_none() && bot.picture.is_none() && bot.banner.is_none()
        && bot.about.is_none() && bot.lud16.is_none() {
        return None;
    }
    Some(
        Profile {
            name: given_or(&bot.display_name, "Flagship"),
            picture: given_or(&bot.picture, ""),
            banner: given_or(&bot.banner, ""),
            about: given_or(&bot.about, ""),
            lud16: given_or(&bot.lud16, ""),
        },
    )
}

/// A member of the metadata, where it is not empty.
pub open spec fn with_text(
    m: Seq<(Seq<char>, JsonView)>,
    key: Seq<char>,
    value: Seq<char>,
) -> Seq<(Seq<char>, JsonView)> {
    if value.len() == 0 {
        m
    } else {
        m.push((key, JsonView::Text(value)))
    }
}

/// The metadata of a profile.
pub open spec fn metadata(p: ProfileView) -> JsonView {
    let m = Seq::empty().push(("name"@, JsonView::Text(p.name))).push(
        ("about"@, JsonView::Text(p.about)),
    ).push(("bot"@, JsonView::Bool(true)));
    JsonView::Object(
        with_text(
            with_text(with_text(m, "picture"@, p.picture), "banner"@, p.banner),
            "lud16"@,
            p.lud16,
        ),
    )
}

fn add_text(m: &mut Vec<(String, Json)>, key: &str, value: &str)
    ensures
        json::member_views(final(m)@) == with_text(json::member_views(old(m)@), key@, value@),
{
    if !value.is_empty() {
        json::add_member(m, key, json::string(value));
    }
}

/// Builds the metadata of a profile, for publishing it with its Lightning address.
pub fn profile_metadata(p: &Profile) -> (r: Json)
    ensures
        r@ == metadata(p@),
{
    let mut m: Vec<(String, Json)> = Vec::new();
    proof {
        assert(json::member_views(m@) =~= Seq::empty());
    }
    json::add_member(&mut m, "name", json::string(p.name.as_str()));
    json::add_member(&mut m, "about", json::string(p.about.as_str()));
    json::add_member(&mut m, "bot", Json::Bool(true));
    add_text(&mut m, "picture", p.picture.as_str());
    add_text(&mut m, "banner", p.banner.as_str());
    add_text(&mut m, "lud16", p.lud16.as_str());
    json::object(m)
}

// ---------------------------------------------------------------------------
// Communities
// ---------------------------------------------------------------------------

/// The name of a community to create at the start: only where that is configured and the bot is
/// in none.
pub fn community_to_create(v2: &V2Section, existing: usize) -> (r: Option<String>)
    ensures
        text::opt_view(r) == if v2.auto_create && existing == 0 {
            Some(text::or_else(text::opt_view(v2.community_name), "Bot Community"@))
        } else {
            None
        },
{
    if v2.auto_create && existing == 0 {
        Some(given_or(&v2.community_name, "Bot Community"))
    } else {
        None
    }
}

/// The communities to join at the start: those that the configuration lists by name, then those
/// that it has invite links for.
pub fn communities_to_join(communities: &CommunitiesSection, v2: &V2Section) -> (r: Vec<String>)
    ensures
        text::views(r@) == text::views(communities.join@) + text::views(v2.join_on_start@),
{
    let ghost first = text::views(communities.join@);
    let ghost rest = text::views(v2.join_on_start@);
    let mut out = text::copy_strings(&communities.join);
    let mut i: usize = 0;
    proof {
        assert(first + rest.take(0) =~= first);
    }
    while i < v2.join_on_start.len()
        invariant
            i <= v2.join_on_start.len(),
            rest == text::views(v2.join_on_start@),
            text::views(out@) == first + rest.take(i as int),
        decreases v2.join_on_start.len() - i,
    {
        let ghost before = text::views(out@);
        let link = v2.join_on_start[i].clone();
        proof {
            assert(link@ == rest[i as int]);
        }
        out.push(link);
        proof {
            assert(text::views(out@) =~= before.push(rest[i as int]));
            assert(first + rest.take(i + 1) =~= (first + rest.take(i as int)).push(rest[i as int]));
        }
        i = i + 1;
    }
    proof {
        assert(rest.take(i as int) =~= rest);
    }
    out
}

/// The tables once the channels of a summary are switched off.
pub open spec fn switched_off(db: CommunityView, channels: Seq<JsonView>, now: i64) -> CommunityView
    decreases channels.len(),
{
    if channels.len() == 0 {
        db
    } else {
        let before = switched_off(db, channels.drop_last(), now);
        match channels.last().text_at("channel_id"@) {
            Some(id) => before.with_channel(
                id,
                ChannelView { enabled: false, updated_at: now, updated_by: "system"@ },
            ),
            None => before,
        }
    }
}

/// The channels of a summary.
pub open spec fn channels_in(summary: JsonView) -> Seq<JsonView> {
    match summary.at("channels"@).items() {
        Some(list) => list,
        None => Seq::empty(),
    }
}

/// Switches the bot off in all channels of a community that it joined.
pub fn disable_joined(db: &mut Database, summary: &Json, now: i64)
    ensures
        final(db)@ == switched_off(old(db)@, channels_in(summary@), now),
{
    let ghost before = db@;
    if let Some(value) = summary.get("channels") {
        if let Some(list) = value.as_array() {
            let ghost all = json::json_views(list@);
            let mut i: usize = 0;
            proof {
                assert(all.take(0) =~= Seq::empty());
            }
            while i < list.len()
                invariant
                    i <= list.len(),
                    all == json::json_views(list@),
                    db@ == switched_off(before, all.take(i as int), now),
                decreases list.len() - i,
            {
                proof {
                    assert(all.take(i + 1).drop_last() =~= all.take(i as int));
                    assert(all.take(i + 1).last() == list@[i as int]@);
                }
                if let Some(id) = list[i].str_at("channel_id") {
                    db.disable_channel(id, now);
                }
                i = i + 1;
            }
            proof {
                assert(all.take(i as int) =~= all);
            }
        }
    }
}

/// The bot is switched off in every channel of a community that it joined.
pub proof fn law_joined_channels_are_off(
    db: CommunityView,
    channels: Seq<JsonView>,
    now: i64,
    i: int,
)
    requires
        0 <= i < channels.len(),
        channels[i].text_at("channel_id"@) is Some,
    ensures
        !switched_off(db, channels, now).enabled(channels[i].text_at("channel_id"@)->0),
    decreases channels.len(),
{
    let init = channels.drop_last();
    if i < init.len() {
        assert(init[i] == channels[i]);
        law_joined_channels_are_off(db, init, now, i);
    } else {
        assert(channels.last() == channels[i]);
    }
}

} // verus!
