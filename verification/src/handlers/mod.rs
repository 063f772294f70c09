//! What the bot does with messages and events.

pub mod access_laws;
pub mod ai_bridge;
pub mod ai_laws;
pub mod automod;
pub mod command_laws;
pub mod commands;
pub mod community_admin;
pub mod community_admin_laws;
pub mod community_cmds;
pub mod detail_laws;
pub mod display_laws;
pub mod engagement_laws;
pub mod fun;
pub mod git_cmds;
pub mod git_laws;
pub mod moderation_cmds;
pub mod moderation_laws;
pub mod nostr_cmds;
pub mod nostr_laws;
pub mod reply_laws;
pub mod scheduled;
pub mod thread;
pub mod thread_laws;
pub mod utility;
pub mod utility_laws;
pub mod wallet_cmds;
pub mod wallet_laws;

use vstd::prelude::*;
use crate::auth::AuthManager;
use crate::community::{CommunityView, Database};
use crate::config::{Feature, FeaturesSection};
use crate::cooldown::Cooldowns;
use crate::{auth, chance, community, cooldown, number, text};

verus! {

/// What is said where a command needs a community.
pub open spec fn no_community() -> Seq<char> {
    "⚠️ This command can only be used in a community channel."@
}

/// Says that a command needs a community.
pub(crate) fn outside_community() -> (r: String)
    ensures
        r@ == no_community(),
{
    "⚠️ This command can only be used in a community channel.".to_owned()
}

/// An npub argument without the whitespace around it, a `nostr:` at its start and an `@` after
/// that.
pub open spec fn plain_npub(input: Seq<char>) -> Seq<char> {
    let s = text::trimmed(input);
    let s = match text::stripped_prefix(s, "nostr:"@) {
        Some(t) => t,
        None => s,
    };
    if s.len() > 0 && s[0] == '@' {
        s.drop_first()
    } else {
        s
    }
}

/// Cleans an npub argument.
pub fn normalize_npub(input: &str) -> (r: String)
    ensures
        r@ == plain_npub(input@),
{
    let s = text::trim(input);
    let s = match text::strip_prefix(s, "nostr:") {
        Some(t) => t,
        None => s,
    };
    if text::starts_with_char(s, '@') {
        let n: usize = s.unicode_len();
        let t = s.substring_char(1, n);
        proof {
            assert(t@ =~= s@.drop_first());
        }
        t.to_owned()
    } else {
        s.to_owned()
    }
}

/// Nanoseconds between two welcomes of a member in a channel: one hour.
pub const WELCOME_COOLDOWN_NANOS: u64 = 3_600_000_000_000;

// ---------------------------------------------------------------------------
// Messages
// ---------------------------------------------------------------------------

/// Whether a message is a command.
pub fn is_command(message: &str) -> (r: bool)
    ensures
        r == (message@.len() > 0 && message@[0] == '!'),
{
    text::starts_with_char(message, '!')
}

/// Whether a message earns its sender experience: it is no command, the sender has a name and is
/// not the bot, and community features are on.
pub fn earns_xp(features: &FeaturesSection, bot_npub: &str, npub: Option<&str>, message: &str) -> (r:
    bool)
    ensures
        r == (!(message@.len() > 0 && message@[0] == '!') && npub is Some && npub->0@.len() > 0
            && npub->0@ != bot_npub@ && features.community),
{
    if is_command(message) {
        return false;
    }
    match npub {
        Some(n) => !n.is_empty() && !text::same(n, bot_npub) && features.is_enabled(
            Feature::Community,
        ),
        None => false,
    }
}

/// The tables once a message of a user is counted; a count that would not fit stays.
pub open spec fn message_counted(db: CommunityView, npub: Seq<char>, now: i64) -> CommunityView {
    let u = db.user(npub, now);
    if community::fits(u.messages_sent + 1) {
        db.with_user(npub, community::UserRow { messages_sent: (u.messages_sent + 1) as i64, ..u })
    } else {
        db
    }
}

/// The tables once a message earned `xp`; experience that would not fit is not awarded.
pub open spec fn message_rewarded(
    db: CommunityView,
    npub: Seq<char>,
    channel: Seq<char>,
    xp: i64,
    now: i64,
) -> CommunityView {
    let counted = message_counted(db, npub, now);
    if community::fits(counted.user(npub, now).xp + xp) {
        counted.with_award(npub, xp, channel, now)
    } else {
        counted
    }
}

/// What is announced when a user reaches a new level.
pub open spec fn level_up(db: CommunityView, npub: Seq<char>, xp: i64, now: i64) -> Option<
    Seq<char>,
> {
    let u = message_counted(db, npub, now).user(npub, now);
    let level = community::level_of(u.xp + xp);
    if community::fits(u.xp + xp) && level > u.level {
        Some("🎉 nostr:"@ + npub + " reached Level "@ + number::signed_decimal(level) + "!"@)
    } else {
        None
    }
}

/// Rewards a message with `xp`, unless the user was rewarded within the last minute. Returns what
/// to announce, if anything.
pub fn award_drawn_xp(
    db: &mut Database,
    npub: &str,
    channel_id: &str,
    xp: i64,
    now: i64,
) -> (r: Option<String>)
    ensures
        if old(db)@.on_cooldown(npub@, 60, now) {
            r is None && final(db)@ == old(db)@
        } else {
            &&& final(db)@ == message_rewarded(old(db)@, npub@, channel_id@, xp, now)
            &&& text::opt_view(r) == level_up(old(db)@, npub@, xp, now)
        },
{
    if db.is_on_xp_cooldown(npub, 60, now) {
        return None;
    }
    let _ = db.increment_messages(npub, now);
    match db.award_xp(npub, xp, channel_id, now) {
        Ok((level, up)) => if up {
            Some(
                text::cat5(
                    "🎉 nostr:",
                    npub,
                    " reached Level ",
                    number::show_signed(level).as_str(),
                    "!",
                ),
            )
        } else {
            None
        },
        Err(_) => None,
    }
}

/// Rewards a message with fifteen to twenty-five points, unless the user was rewarded within the
/// last minute. Returns what to announce, if anything.
pub fn award_message_xp(db: &mut Database, npub: &str, channel_id: &str, now: i64) -> (r: Option<
    String,
>)
    ensures
        if old(db)@.on_cooldown(npub@, 60, now) {
            r is None && final(db)@ == old(db)@
        } else {
            exists|xp: i64|
                15 <= xp <= 25 && final(db)@ == #[trigger] message_rewarded(
                    old(db)@,
                    npub@,
                    channel_id@,
                    xp,
                    now,
                ) && text::opt_view(r) == level_up(old(db)@, npub@, xp, now)
        },
{
    let xp: i64 = chance::random_between(15, 25) as i64;
    award_drawn_xp(db, npub, channel_id, xp, now)
}

// ---------------------------------------------------------------------------
// Events
// ---------------------------------------------------------------------------

/// Who was welcomed when, and whether welcomes are on.
pub struct Welcomes {
    pub enabled: bool,
    pub given: Cooldowns,
}

/// Welcomes are on, and nobody was welcomed yet.
pub fn new_welcomes() -> (r: Welcomes)
    ensures
        r.enabled,
        r.given@ == Map::<Seq<char>, Map<Seq<char>, u64>>::empty(),
{
    Welcomes { enabled: true, given: Cooldowns::new() }
}

/// Switches welcome messages on or off.
pub fn set_welcome_enabled(w: &mut Welcomes, enabled: bool)
    ensures
        final(w).enabled == enabled,
        final(w).given@ == old(w).given@,
{
    w.enabled = enabled;
}

/// Whether welcome messages are on.
pub fn is_welcome_enabled(w: &Welcomes) -> (r: bool)
    ensures
        r == w.enabled,
{
    w.enabled
}

/// What happens other than messages.
pub enum BotEvent {
    MemberJoin { channel_id: String, npub: String },
    MemberLeave { channel_id: String, npub: String },
    /// A message was edited or got a reaction.
    MessageUpdate { chat_id: String, author: Option<String>, reactions: usize },
    Delete { chat_id: String, message_id: String },
    Invite { community_id: String },
    Removed { community_id: String },
    Typing { chat_id: String, npub: String },
    Message,
}

/// A message that the bot sends.
pub enum Outgoing {
    /// To a channel.
    Channel(String, String),
    /// To a user.
    Dm(String, String),
}

/// What is sent to whom.
pub enum OutgoingView {
    Channel(Seq<char>, Seq<char>),
    Dm(Seq<char>, Seq<char>),
}

impl View for Outgoing {
    type V = OutgoingView;

    open spec fn view(&self) -> OutgoingView {
        match self {
            Outgoing::Channel(to, what) => OutgoingView::Channel(to@, what@),
            Outgoing::Dm(to, what) => OutgoingView::Dm(to@, what@),
        }
    }
}

/// The view of an optional message.
pub open spec fn opt_outgoing(o: Option<Outgoing>) -> Option<OutgoingView> {
    match o {
        Some(m) => Some(m@),
        None => None,
    }
}

/// Whether a member who joined is welcomed.
pub open spec fn is_welcomed(
    w: Welcomes,
    features: FeaturesSection,
    bot: Seq<char>,
    channel: Seq<char>,
    npub: Seq<char>,
    now: u64,
) -> bool {
    npub != bot && features.community && w.enabled && !cooldown::recent(
        w.given@,
        channel,
        npub,
        now,
        WELCOME_COOLDOWN_NANOS,
    )
}

/// Handles a join: in a channel that the bot itself joins it is switched off; anyone else is
/// welcomed, at most once an hour.
pub fn on_member_join(
    w: &mut Welcomes,
    db: &mut Database,
    features: &FeaturesSection,
    bot_npub: &str,
    channel_id: &str,
    npub: &str,
    clock: u64,
    now: i64,
) -> (r: Option<Outgoing>)
    ensures
        final(db)@ == if npub@ == bot_npub@ {
            old(db)@.with_channel(
                channel_id@,
                community::ChannelView { enabled: false, updated_at: now, updated_by: "system"@ },
            )
        } else {
            old(db)@
        },
        opt_outgoing(r) == if is_welcomed(
            *old(w),
            *features,
            bot_npub@,
            channel_id@,
            npub@,
            clock,
        ) {
            Some(
                OutgoingView::Channel(
                    channel_id@,
                    "Welcome! 🎉 Type !help to see what I can do."@,
                ),
            )
        } else {
            None
        },
        final(w).enabled == old(w).enabled,
        final(w).given@ == if is_welcomed(
            *old(w),
            *features,
            bot_npub@,
            channel_id@,
            npub@,
            clock,
        ) {
            cooldown::stamped(old(w).given@, channel_id@, npub@, clock)
        } else {
            old(w).given@
        },
{
    if text::same(npub, bot_npub) {
        db.disable_channel(channel_id, now);
        return None;
    }
    if features.is_enabled(Feature::Community) && w.enabled && w.given.pass(
        channel_id,
        npub,
        clock,
        WELCOME_COOLDOWN_NANOS,
    ) {
        return Some(
            Outgoing::Channel(
                channel_id.to_owned(),
                "Welcome! 🎉 Type !help to see what I can do.".to_owned(),
            ),
        );
    }
    None
}

/// Whether a reaction earns the author of a message experience.
pub open spec fn reaction_counts(
    features: FeaturesSection,
    bot: Seq<char>,
    author: Option<Seq<char>>,
    reactions: usize,
) -> bool {
    features.community && reactions > 0 && author is Some && author->0 != bot
}

/// Rewards the author of a message that has reactions with `xp`.
pub fn reward_reaction(
    db: &mut Database,
    features: &FeaturesSection,
    bot_npub: &str,
    author: Option<&str>,
    reactions: usize,
    chat_id: &str,
    xp: i64,
    now: i64,
)
    ensures
        final(db)@ == reaction_rewarded(
            old(db)@,
            *features,
            bot_npub@,
            text::opt_str_view(author),
            reactions,
            chat_id@,
            xp,
            now,
        ),
{
    if features.is_enabled(Feature::Community) && reactions > 0 {
        if let Some(npub) = author {
            if !text::same(npub, bot_npub) {
                let _ = db.award_xp(npub, xp, chat_id, now);
            }
        }
    }
}

/// The tables once a reaction is rewarded; experience that would not fit is not awarded.
pub open spec fn reaction_rewarded(
    db: CommunityView,
    features: FeaturesSection,
    bot: Seq<char>,
    author: Option<Seq<char>>,
    reactions: usize,
    chat: Seq<char>,
    xp: i64,
    now: i64,
) -> CommunityView {
    if reaction_counts(features, bot, author, reactions) && community::fits(
        db.user(author->0, now).xp + xp,
    ) {
        db.with_award(author->0, xp, chat, now)
    } else {
        db
    }
}

/// What the owner is told when the bot was removed from a community.
pub open spec fn removal_notice(auth: Option<auth::AuthView>, community: Seq<char>) -> Option<
    OutgoingView,
> {
    match auth {
        Some(a) => if a.owner.len() > 0 {
            Some(OutgoingView::Dm(a.owner, "⚠️ I was removed from community "@ + community))
        } else {
            None
        },
        None => None,
    }
}

/// Tells the owner that the bot was removed from a community.
pub fn on_removed(auth: Option<&AuthManager>, community_id: &str) -> (r: Option<Outgoing>)
    ensures
        opt_outgoing(r) == removal_notice(auth::opt_auth(auth), community_id@),
{
    if let Some(a) = auth {
        if let Some(owner) = a.owner_npub() {
            return Some(
                Outgoing::Dm(owner, text::cat2("⚠️ I was removed from community ", community_id)),
            );
        }
    }
    None
}

/// Handles what happens other than messages: joins are welcomed, reactions rewarded with three to
/// five points, and the owner is told of removals. Returns what to send, if anything.
pub fn on_event(
    w: &mut Welcomes,
    db: &mut Database,
    features: &FeaturesSection,
    auth: Option<&AuthManager>,
    bot_npub: &str,
    event: &BotEvent,
    clock: u64,
    now: i64,
) -> (r: Option<Outgoing>)
    ensures
        match event {
            BotEvent::MemberJoin { channel_id, npub } => {
                let welcomed = is_welcomed(
                    *old(w),
                    *features,
                    bot_npub@,
                    channel_id@,
                    npub@,
                    clock,
                );
                &&& r is Some <==> welcomed
                &&& final(w).given@ == if welcomed {
                    cooldown::stamped(old(w).given@, channel_id@, npub@, clock)
                } else {
                    old(w).given@
                }
                &&& welcomed ==> opt_outgoing(r) == Some(
                    OutgoingView::Channel(
                        channel_id@,
                        "Welcome! 🎉 Type !help to see what I can do."@,
                    ),
                )
                &&& final(db)@ == if npub@ == bot_npub@ {
                    old(db)@.with_channel(
                        channel_id@,
                        community::ChannelView {
                            enabled: false,
                            updated_at: now,
                            updated_by: "system"@,
                        },
                    )
                } else {
                    old(db)@
                }
            },
            BotEvent::MessageUpdate { chat_id, author, reactions } => {
                &&& r is None
                &&& final(w).given@ == old(w).given@
                &&& exists|xp: i64|
                    3 <= xp <= 5 && final(db)@ == #[trigger] reaction_rewarded(
                        old(db)@,
                        *features,
                        bot_npub@,
                        text::opt_view(*author),
                        *reactions,
                        chat_id@,
                        xp,
                        now,
                    )
            },
            BotEvent::Removed { community_id } => {
                &&& opt_outgoing(r) == removal_notice(auth::opt_auth(auth), community_id@)
                &&& final(w).given@ == old(w).given@
                &&& final(db)@ == old(db)@
            },
            _ => r is None && final(w).given@ == old(w).given@ && final(db)@ == old(db)@,
        },
        final(w).enabled == old(w).enabled,
{
    match event {
        BotEvent::MemberJoin { channel_id, npub } => on_member_join(
            w,
            db,
            features,
            bot_npub,
            channel_id.as_str(),
            npub.as_str(),
            clock,
            now,
        ),
        BotEvent::MessageUpdate { chat_id, author, reactions } => {
            let who: Option<&str> = match author {
                Some(a) => Some(a.as_str()),
                None => None,
            };
            proof {
                assert(text::opt_str_view(who) == text::opt_view(*author));
            }
            let xp: i64 = chance::random_between(3, 5) as i64;
            reward_reaction(db, features, bot_npub, who, *reactions, chat_id.as_str(), xp, now);
            None
        },
        BotEvent::Removed { community_id } => on_removed(auth, community_id.as_str()),
        _ => None,
    }
}

} // verus!
