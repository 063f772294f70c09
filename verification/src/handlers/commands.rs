//! Commands: which there are, who may give them, and the built-in ones.

use vstd::prelude::*;
use crate::auth::{AuthLevel, AuthManager, AuthView};
use crate::community::{ChannelView, CommunityView, Database};
use crate::config::{Feature, FeaturesSection};
use crate::cooldown::Cooldowns;
use crate::rate_limiter::{RateLimitResult, RateLimiter};
use crate::{auth, cooldown, handlers, number, rate_limiter, text};

verus! {

/// Nanoseconds between two helps in a channel: three minutes.
pub const HELP_COOLDOWN_NANOS: u64 = 180_000_000_000;

// ---------------------------------------------------------------------------
// The commands
// ---------------------------------------------------------------------------

/// The commands.
#[derive(Debug, Clone, Copy, PartialEq, Eq, Structural)]
pub enum Command {
    Ping,
    Repo,
    Help,
    Echo,
    Whoami,
    Auth,
    Stats,
    Add,
    Remove,
    List,
    Enable,
    Disable,
    Price,
    Time,
    Roll,
    Weather,
    Remind,
    Poll,
    Translate,
    Define,
    Quote,
    Joke,
    Fact,
    Meme,
    Shorten,
    Delete,
    Edit,
    Savefile,
    EightBall,
    Flip,
    Choose,
    Rps,
    Balance,
    Tip,
    Zap,
    Deposit,
    Withdraw,
    Nostr,
    Nip05,
    Follow,
    Kick,
    Ban,
    Unban,
    Warn,
    Warnings,
    Welcome,
    Grantmod,
    Revokemod,
    Level,
    Rank,
    Leaderboard,
    Profile,
    Giveaway,
    Rep,
    Git,
    Community,
    Invite,
    Join,
    Members,
    Channels,
    Roles,
    Caps,
}

/// The one of the core commands that is called `s`.
pub open spec fn core_named(s: Seq<char>) -> Option<Command> {
    if s == "!ping"@ {
        Some(Command::Ping)
    } else if s == "!repo"@ {
        Some(Command::Repo)
    } else if s == "!help"@ {
        Some(Command::Help)
    } else if s == "!echo"@ {
        Some(Command::Echo)
    } else if s == "!whoami"@ {
        Some(Command::Whoami)
    } else if s == "!auth"@ {
        Some(Command::Auth)
    } else if s == "!add"@ {
        Some(Command::Add)
    } else if s == "!remove"@ {
        Some(Command::Remove)
    } else if s == "!list"@ {
        Some(Command::List)
    } else if s == "!enable"@ {
        Some(Command::Enable)
    } else if s == "!disable"@ {
        Some(Command::Disable)
    } else {
        None
    }
}

fn core_command(s: &str) -> (r: Option<Command>)
    ensures
        r == core_named(s@),
{
    if text::same(s, "!ping") {
        return Some(Command::Ping);
    }
    if text::same(s, "!repo") {
        return Some(Command::Repo);
    }
    if text::same(s, "!help") {
        return Some(Command::Help);
    }
    if text::same(s, "!echo") {
        return Some(Command::Echo);
    }
    if text::same(s, "!whoami") {
        return Some(Command::Whoami);
    }
    if text::same(s, "!auth") {
        return Some(Command::Auth);
    }
    if text::same(s, "!add") {
        return Some(Command::Add);
    }
    if text::same(s, "!remove") {
        return Some(Command::Remove);
    }
    if text::same(s, "!list") {
        return Some(Command::List);
    }
    if text::same(s, "!enable") {
        return Some(Command::Enable);
    }
    if text::same(s, "!disable") {
        return Some(Command::Disable);
    }
    None
}

/// The one of the utility and fun commands that is called `s`.
pub open spec fn utility_named(s: Seq<char>) -> Option<Command> {
    if s == "!stats"@ {
        Some(Command::Stats)
    } else if s == "!price"@ {
        Some(Command::Price)
    } else if s == "!time"@ {
        Some(Command::Time)
    } else if s == "!roll"@ {
        Some(Command::Roll)
    } else if s == "!weather"@ {
        Some(Command::Weather)
    } else if s == "!remind"@ {
        Some(Command::Remind)
    } else if s == "!poll"@ {
        Some(Command::Poll)
    } else if s == "!translate"@ {
        Some(Command::Translate)
    } else if s == "!define"@ {
        Some(Command::Define)
    } else if s == "!quote"@ {
        Some(Command::Quote)
    } else if s == "!joke"@ {
        Some(Command::Joke)
    } else if s == "!fact"@ {
        Some(Command::Fact)
    } else if s == "!meme"@ {
        Some(Command::Meme)
    } else if s == "!shorten"@ {
        Some(Command::Shorten)
    } else if s == "!delete"@ {
        Some(Command::Delete)
    } else if s == "!edit"@ {
        Some(Command::Edit)
    } else if s == "!savefile"@ {
        Some(Command::Savefile)
    } else if s == "!8ball"@ {
        Some(Command::EightBall)
    } else if s == "!flip"@ {
        Some(Command::Flip)
    } else if s == "!choose"@ {
        Some(Command::Choose)
    } else if s == "!rps"@ {
        Some(Command::Rps)
    } else {
        None
    }
}

fn utility_command(s: &str) -> (r: Option<Command>)
    ensures
        r == utility_named(s@),
{
    if text::same(s, "!stats") {
        return Some(Command::Stats);
    }
    if text::same(s, "!price") {
        return Some(Command::Price);
    }
    if text::same(s, "!time") {
        return Some(Command::Time);
    }
    if text::same(s, "!roll") {
        return Some(Command::Roll);
    }
    if text::same(s, "!weather") {
        return Some(Command::Weather);
    }
    if text::same(s, "!remind") {
        return Some(Command::Remind);
    }
    if text::same(s, "!poll") {
        return Some(Command::Poll);
    }
    if text::same(s, "!translate") {
        return Some(Command::Translate);
    }
    if text::same(s, "!define") {
        return Some(Command::Define);
    }
    if text::same(s, "!quote") {
        return Some(Command::Quote);
    }
    if text::same(s, "!joke") {
        return Some(Command::Joke);
    }
    if text::same(s, "!fact") {
        return Some(Command::Fact);
    }
    if text::same(s, "!meme") {
        return Some(Command::Meme);
    }
    if text::same(s, "!shorten") {
        return Some(Command::Shorten);
    }
    if text::same(s, "!delete") {
        return Some(Command::Delete);
    }
    if text::same(s, "!edit") {
        return Some(Command::Edit);
    }
    if text::same(s, "!savefile") {
        return Some(Command::Savefile);
    }
    if text::same(s, "!8ball") {
        return Some(Command::EightBall);
    }
    if text::same(s, "!flip") {
        return Some(Command::Flip);
    }
    if text::same(s, "!choose") {
        return Some(Command::Choose);
    }
    if text::same(s, "!rps") {
        return Some(Command::Rps);
    }
    None
}

/// The one of the wallet, Nostr and moderation commands that is called `s`.
pub open spec fn nostr_named(s: Seq<char>) -> Option<Command> {
    if s == "!balance"@ {
        Some(Command::Balance)
    } else if s == "!tip"@ {
        Some(Command::Tip)
    } else if s == "!zap"@ {
        Some(Command::Zap)
    } else if s == "!deposit"@ {
        Some(Command::Deposit)
    } else if s == "!withdraw"@ {
        Some(Command::Withdraw)
    } else if s == "!nostr"@ {
        Some(Command::Nostr)
    } else if s == "!nip05"@ {
        Some(Command::Nip05)
    } else if s == "!follow"@ {
        Some(Command::Follow)
    } else if s == "!kick"@ {
        Some(Command::Kick)
    } else if s == "!ban"@ {
        Some(Command::Ban)
    } else if s == "!unban"@ {
        Some(Command::Unban)
    } else if s == "!warn"@ {
        Some(Command::Warn)
    } else if s == "!warnings"@ {
        Some(Command::Warnings)
    } else if s == "!grantmod"@ {
        Some(Command::Grantmod)
    } else if s == "!revokemod"@ {
        Some(Command::Revokemod)
    } else {
        None
    }
}

fn nostr_command(s: &str) -> (r: Option<Command>)
    ensures
        r == nostr_named(s@),
{
    if text::same(s, "!balance") {
        return Some(Command::Balance);
    }
    if text::same(s, "!tip") {
        return Some(Command::Tip);
    }
    if text::same(s, "!zap") {
        return Some(Command::Zap);
    }
    if text::same(s, "!deposit") {
        return Some(Command::Deposit);
    }
    if text::same(s, "!withdraw") {
        return Some(Command::Withdraw);
    }
    if text::same(s, "!nostr") {
        return Some(Command::Nostr);
    }
    if text::same(s, "!nip05") {
        return Some(Command::Nip05);
    }
    if text::same(s, "!follow") {
        return Some(Command::Follow);
    }
    if text::same(s, "!kick") {
        return Some(Command::Kick);
    }
    if text::same(s, "!ban") {
        return Some(Command::Ban);
    }
    if text::same(s, "!unban") {
        return Some(Command::Unban);
    }
    if text::same(s, "!warn") {
        return Some(Command::Warn);
    }
    if text::same(s, "!warnings") {
        return Some(Command::Warnings);
    }
    if text::same(s, "!grantmod") {
        return Some(Command::Grantmod);
    }
    if text::same(s, "!revokemod") {
        return Some(Command::Revokemod);
    }
    None
}

/// The one of the community and git commands that is called `s`.
pub open spec fn community_named(s: Seq<char>) -> Option<Command> {
    if s == "!welcome"@ {
        Some(Command::Welcome)
    } else if s == "!level"@ {
        Some(Command::Level)
    } else if s == "!rank"@ {
        Some(Command::Rank)
    } else if s == "!leaderboard"@ {
        Some(Command::Leaderboard)
    } else if s == "!profile"@ {
        Some(Command::Profile)
    } else if s == "!giveaway"@ {
        Some(Command::Giveaway)
    } else if s == "!rep"@ {
        Some(Command::Rep)
    } else if s == "!git"@ {
        Some(Command::Git)
    } else if s == "!community"@ {
        Some(Command::Community)
    } else if s == "!invite"@ {
        Some(Command::Invite)
    } else if s == "!join"@ {
        Some(Command::Join)
    } else if s == "!members"@ {
        Some(Command::Members)
    } else if s == "!channels"@ {
        Some(Command::Channels)
    } else if s == "!roles"@ {
        Some(Command::Roles)
    } else if s == "!caps"@ {
        Some(Command::Caps)
    } else {
        None
    }
}

fn community_command(s: &str) -> (r: Option<Command>)
    ensures
        r == community_named(s@),
{
    if text::same(s, "!welcome") {
        return Some(Command::Welcome);
    }
    if text::same(s, "!level") {
        return Some(Command::Level);
    }
    if text::same(s, "!rank") {
        return Some(Command::Rank);
    }
    if text::same(s, "!leaderboard") {
        return Some(Command::Leaderboard);
    }
    if text::same(s, "!profile") {
        return Some(Command::Profile);
    }
    if text::same(s, "!giveaway") {
        return Some(Command::Giveaway);
    }
    if text::same(s, "!rep") {
        return Some(Command::Rep);
    }
    if text::same(s, "!git") {
        return Some(Command::Git);
    }
    if text::same(s, "!community") {
        return Some(Command::Community);
    }
    if text::same(s, "!invite") {
        return Some(Command::Invite);
    }
    if text::same(s, "!join") {
        return Some(Command::Join);
    }
    if text::same(s, "!members") {
        return Some(Command::Members);
    }
    if text::same(s, "!channels") {
        return Some(Command::Channels);
    }
    if text::same(s, "!roles") {
        return Some(Command::Roles);
    }
    if text::same(s, "!caps") {
        return Some(Command::Caps);
    }
    None
}

/// The command that is called `s`.
pub open spec fn command_named(s: Seq<char>) -> Option<Command> {
    if core_named(s) is Some {
        core_named(s)
    } else if utility_named(s) is Some {
        utility_named(s)
    } else if nostr_named(s) is Some {
        nostr_named(s)
    } else {
        community_named(s)
    }
}

/// The command that is called `s`.
pub fn find_command(s: &str) -> (r: Option<Command>)
    ensures
        r == command_named(s@),
{
    if let Some(c) = core_command(s) {
        return Some(c);
    }
    if let Some(c) = utility_command(s) {
        return Some(c);
    }
    if let Some(c) = nostr_command(s) {
        return Some(c);
    }
    community_command(s)
}

/// What a `!git` command does: the first word of its arguments.
pub open spec fn git_verb(args: Seq<char>) -> Seq<char> {
    text::head_word(text::trimmed(args))
}

/// The level that a `!git` command asks for: subscriptions are changed by authorized users, and
/// only the owner forces a poll.
pub open spec fn git_level(args: Seq<char>) -> AuthLevel {
    let verb = git_verb(args);
    if verb == "add"@ || verb == "remove"@ || verb == "rm"@ || verb == "delete"@ {
        AuthLevel::Authorized
    } else if verb == "poll"@ {
        AuthLevel::Owner
    } else {
        AuthLevel::Public
    }
}

fn level_of_git(args: &str) -> (r: AuthLevel)
    ensures
        r == git_level(args@),
{
    let (verb, _) = text::split_word(text::trim(args));
    if text::same(verb, "add") || text::same(verb, "remove") || text::same(verb, "rm")
        || text::same(verb, "delete") {
        AuthLevel::Authorized
    } else if text::same(verb, "poll") {
        AuthLevel::Owner
    } else {
        AuthLevel::Public
    }
}

impl Command {
    /// The feature that a command belongs to; none for those that are always on.
    pub open spec fn feature(self) -> Option<Feature> {
        match self {
            Command::Ping => None,
            Command::Repo => None,
            Command::Help => None,
            Command::Echo => None,
            Command::Whoami => None,
            Command::Auth => None,
            Command::Add => None,
            Command::Remove => None,
            Command::List => None,
            Command::Enable => None,
            Command::Disable => None,
            Command::Stats => Some(Feature::Utility),
            Command::Price => Some(Feature::Utility),
            Command::Time => Some(Feature::Utility),
            Command::Roll => Some(Feature::Utility),
            Command::Weather => Some(Feature::Utility),
            Command::Remind => Some(Feature::Utility),
            Command::Poll => Some(Feature::Utility),
            Command::Translate => Some(Feature::Utility),
            Command::Define => Some(Feature::Utility),
            Command::Quote => Some(Feature::Utility),
            Command::Joke => Some(Feature::Utility),
            Command::Fact => Some(Feature::Utility),
            Command::Meme => Some(Feature::Utility),
            Command::Shorten => Some(Feature::Utility),
            Command::Delete => Some(Feature::Utility),
            Command::Edit => Some(Feature::Utility),
            Command::Savefile => Some(Feature::Utility),
            Command::EightBall => Some(Feature::Fun),
            Command::Flip => Some(Feature::Fun),
            Command::Choose => Some(Feature::Fun),
            Command::Rps => Some(Feature::Fun),
            Command::Balance => Some(Feature::Nostr),
            Command::Tip => Some(Feature::Nostr),
            Command::Zap => Some(Feature::Nostr),
            Command::Deposit => Some(Feature::Nostr),
            Command::Withdraw => Some(Feature::Nostr),
            Command::Nostr => Some(Feature::Nostr),
            Command::Nip05 => Some(Feature::Nostr),
            Command::Follow => Some(Feature::Nostr),
            Command::Kick => Some(Feature::Moderation),
            Command::Ban => Some(Feature::Moderation),
            Command::Unban => Some(Feature::Moderation),
            Command::Warn => Some(Feature::Moderation),
            Command::Warnings => Some(Feature::Moderation),
            Command::Grantmod => Some(Feature::Moderation),
            Command::Revokemod => Some(Feature::Moderation),
            Command::Welcome => Some(Feature::Community),
            Command::Level => Some(Feature::Community),
            Command::Rank => Some(Feature::Community),
            Command::Leaderboard => Some(Feature::Community),
            Command::Profile => Some(Feature::Community),
            Command::Giveaway => Some(Feature::Community),
            Command::Rep => Some(Feature::Community),
            Command::Community => Some(Feature::Community),
            Command::Invite => Some(Feature::Community),
            Command::Join => Some(Feature::Community),
            Command::Members => Some(Feature::Community),
            Command::Channels => Some(Feature::Community),
            Command::Roles => Some(Feature::Community),
            Command::Caps => Some(Feature::Community),
            Command::Git => Some(Feature::GitMonitor),
        }
    }

    /// The level that a command asks for.
    pub open spec fn level(self, args: Seq<char>) -> AuthLevel {
        match self {
            Command::Git => git_level(args),
            Command::Add => AuthLevel::Owner,
            Command::Remove => AuthLevel::Owner,
            Command::List => AuthLevel::Owner,
            Command::Enable => AuthLevel::Owner,
            Command::Disable => AuthLevel::Owner,
            Command::Follow => AuthLevel::Owner,
            Command::Ban => AuthLevel::Owner,
            Command::Unban => AuthLevel::Owner,
            Command::Welcome => AuthLevel::Owner,
            Command::Grantmod => AuthLevel::Owner,
            Command::Revokemod => AuthLevel::Owner,
            Command::Join => AuthLevel::Owner,
            Command::Tip => AuthLevel::Authorized,
            Command::Zap => AuthLevel::Authorized,
            Command::Deposit => AuthLevel::Authorized,
            Command::Withdraw => AuthLevel::Authorized,
            Command::Kick => AuthLevel::Authorized,
            Command::Warn => AuthLevel::Authorized,
            Command::Warnings => AuthLevel::Authorized,
            Command::Giveaway => AuthLevel::Authorized,
            _ => AuthLevel::Public,
        }
    }

    fn needs(&self) -> (r: Option<Feature>)
        ensures
            r == self.feature(),
    {
        match self {
            Command::Ping => None,
            Command::Repo => None,
            Command::Help => None,
            Command::Echo => None,
            Command::Whoami => None,
            Command::Auth => None,
            Command::Add => None,
            Command::Remove => None,
            Command::List => None,
            Command::Enable => None,
            Command::Disable => None,
            Command::Stats => Some(Feature::Utility),
            Command::Price => Some(Feature::Utility),
            Command::Time => Some(Feature::Utility),
            Command::Roll => Some(Feature::Utility),
            Command::Weather => Some(Feature::Utility),
            Command::Remind => Some(Feature::Utility),
            Command::Poll => Some(Feature::Utility),
            Command::Translate => Some(Feature::Utility),
            Command::Define => Some(Feature::Utility),
            Command::Quote => Some(Feature::Utility),
            Command::Joke => Some(Feature::Utility),
            Command::Fact => Some(Feature::Utility),
            Command::Meme => Some(Feature::Utility),
            Command::Shorten => Some(Feature::Utility),
            Command::Delete => Some(Feature::Utility),
            Command::Edit => Some(Feature::Utility),
            Command::Savefile => Some(Feature::Utility),
            Command::EightBall => Some(Feature::Fun),
            Command::Flip => Some(Feature::Fun),
            Command::Choose => Some(Feature::Fun),
            Command::Rps => Some(Feature::Fun),
            Command::Balance => Some(Feature::Nostr),
            Command::Tip => Some(Feature::Nostr),
            Command::Zap => Some(Feature::Nostr),
            Command::Deposit => Some(Feature::Nostr),
            Command::Withdraw => Some(Feature::Nostr),
            Command::Nostr => Some(Feature::Nostr),
            Command::Nip05 => Some(Feature::Nostr),
            Command::Follow => Some(Feature::Nostr),
            Command::Kick => Some(Feature::Moderation),
            Command::Ban => Some(Feature::Moderation),
            Command::Unban => Some(Feature::Moderation),
            Command::Warn => Some(Feature::Moderation),
            Command::Warnings => Some(Feature::Moderation),
            Command::Grantmod => Some(Feature::Moderation),
            Command::Revokemod => Some(Feature::Moderation),
            Command::Welcome => Some(Feature::Community),
            Command::Level => Some(Feature::Community),
            Command::Rank => Some(Feature::Community),
            Command::Leaderboard => Some(Feature::Community),
            Command::Profile => Some(Feature::Community),
            Command::Giveaway => Some(Feature::Community),
            Command::Rep => Some(Feature::Community),
            Command::Community => Some(Feature::Community),
            Command::Invite => Some(Feature::Community),
            Command::Join => Some(Feature::Community),
            Command::Members => Some(Feature::Community),
            Command::Channels => Some(Feature::Community),
            Command::Roles => Some(Feature::Community),
            Command::Caps => Some(Feature::Community),
            Command::Git => Some(Feature::GitMonitor),
        }
    }

    fn asks(&self, args: &str) -> (r: AuthLevel)
        ensures
            r == self.level(args@),
    {
        match self {
            Command::Git => level_of_git(args),
            Command::Add => AuthLevel::Owner,
            Command::Remove => AuthLevel::Owner,
            Command::List => AuthLevel::Owner,
            Command::Enable => AuthLevel::Owner,
            Command::Disable => AuthLevel::Owner,
            Command::Follow => AuthLevel::Owner,
            Command::Ban => AuthLevel::Owner,
            Command::Unban => AuthLevel::Owner,
            Command::Welcome => AuthLevel::Owner,
            Command::Grantmod => AuthLevel::Owner,
            Command::Revokemod => AuthLevel::Owner,
            Command::Join => AuthLevel::Owner,
            Command::Tip => AuthLevel::Authorized,
            Command::Zap => AuthLevel::Authorized,
            Command::Deposit => AuthLevel::Authorized,
            Command::Withdraw => AuthLevel::Authorized,
            Command::Kick => AuthLevel::Authorized,
            Command::Warn => AuthLevel::Authorized,
            Command::Warnings => AuthLevel::Authorized,
            Command::Giveaway => AuthLevel::Authorized,
            _ => AuthLevel::Public,
        }
    }
}

// ---------------------------------------------------------------------------
// Routing
// ---------------------------------------------------------------------------

/// What becomes of a command message.
pub enum Route {
    /// Nothing.
    Ignore,
    /// This answer alone.
    Reply(String),
    /// The command is carried out, with its arguments.
    Run(Command, String),
}

/// What becomes of a command message.
pub enum RouteView {
    Ignore,
    Reply(Seq<char>),
    Run(Command, Seq<char>),
}

impl View for Route {
    type V = RouteView;

    open spec fn view(&self) -> RouteView {
        match self {
            Route::Ignore => RouteView::Ignore,
            Route::Reply(s) => RouteView::Reply(s@),
            Route::Run(c, args) => RouteView::Run(*c, args@),
        }
    }
}

/// Whether a user may do what asks for a level. Without authorization everyone may.
pub open spec fn permitted(
    auth: Option<AuthView>,
    npub: Seq<char>,
    community: Option<Seq<char>>,
    level: AuthLevel,
) -> bool {
    level == AuthLevel::Public || match auth {
        Some(a) => a.level(npub, community).covers(level),
        None => true,
    }
}

/// What a user is told who may not do something.
pub open spec fn denial(level: AuthLevel) -> Seq<char> {
    if level == AuthLevel::Owner {
        "⛔ Owner only."@
    } else {
        "⛔ Not authorized. Ask the owner to run !add <your-npub>"@
    }
}

/// Whether a user may do what asks for a level; else what they are told.
pub fn require_auth(
    auth: Option<&AuthManager>,
    npub: &str,
    community: Option<&str>,
    level: AuthLevel,
) -> (r: Option<String>)
    ensures
        text::opt_view(r) == if permitted(
            auth::opt_auth(auth),
            npub@,
            text::opt_str_view(community),
            level,
        ) {
            None
        } else {
            Some(denial(level))
        },
{
    if let AuthLevel::Public = level {
        return None;
    }
    if let Some(a) = auth {
        if !a.has_permission(npub, community, level) {
            return Some(
                if let AuthLevel::Owner = level {
                    "⛔ Owner only.".to_owned()
                } else {
                    "⛔ Not authorized. Ask the owner to run !add <your-npub>".to_owned()
                },
            );
        }
    }
    None
}

/// The command word of a message: everything before its first space.
pub open spec fn command_word(message: Seq<char>) -> Seq<char> {
    message.take(text::first_of(message, ' '))
}

/// The arguments of a message: everything after its first space.
pub open spec fn command_args(message: Seq<char>) -> Seq<char> {
    if text::first_of(message, ' ') < message.len() {
        message.skip(text::first_of(message, ' ') + 1)
    } else {
        ""@
    }
}

/// Cuts a message into the command word and the arguments.
pub fn split_command<'a>(message: &'a str) -> (r: (&'a str, &'a str))
    ensures
        r.0@ == command_word(message@),
        r.1@ == command_args(message@),
{
    match text::split_once(message, ' ') {
        Some((word, args)) => (word, args),
        None => {
            proof {
                text::lemma_first_of_bounds(message@, ' ');
                assert(message@.take(message@.len() as int) =~= message@);
            }
            (message, "")
        },
    }
}

/// What becomes of a command that the limiter let through: nothing where it is unknown or its
/// feature is off, a denial where the sender lacks the level, else it is carried out.
pub open spec fn dispatched(
    features: FeaturesSection,
    auth: Option<AuthView>,
    npub: Seq<char>,
    community: Option<Seq<char>>,
    word: Seq<char>,
    args: Seq<char>,
) -> RouteView {
    match command_named(word) {
        None => RouteView::Ignore,
        Some(c) => if c.feature() is Some && !features.flag(c.feature()->0) {
            RouteView::Ignore
        } else if permitted(auth, npub, community, c.level(args)) {
            RouteView::Run(c, args)
        } else {
            RouteView::Reply(denial(c.level(args)))
        },
    }
}

/// Whether a message is ignored because the bot is switched off in the channel: every command but
/// those that switch it on and off.
pub open spec fn silenced(enabled: Option<bool>, word: Seq<char>) -> bool {
    enabled == Some(false) && word != "!enable"@ && word != "!disable"@
}

fn dispatch(
    features: &FeaturesSection,
    auth: Option<&AuthManager>,
    npub: &str,
    community: Option<&str>,
    word: &str,
    args: &str,
) -> (r: Route)
    ensures
        r@ == dispatched(
            *features,
            auth::opt_auth(auth),
            npub@,
            text::opt_str_view(community),
            word@,
            args@,
        ),
{
    match find_command(word) {
        None => Route::Ignore,
        Some(c) => {
            if let Some(f) = c.needs() {
                if !features.is_enabled(f) {
                    return Route::Ignore;
                }
            }
            match require_auth(auth, npub, community, c.asks(args)) {
                Some(why) => Route::Reply(why),
                None => Route::Run(c, args.to_owned()),
            }
        },
    }
}

/// Decides on a message that starts with `!`. Whether the bot is switched on in the channel may be
/// unknown; then it counts as switched on. The limiter knows senders without a name by their chat.
pub fn on_message(
    limiter: &mut RateLimiter,
    features: &FeaturesSection,
    auth: Option<&AuthManager>,
    enabled: Option<bool>,
    npub: &str,
    chat_id: &str,
    community: Option<&str>,
    message: &str,
    now: u64,
) -> (r: Route)
    ensures
        ({
            let word = command_word(message@);
            let user = if npub@.len() == 0 {
                chat_id@
            } else {
                npub@
            };
            let use_ = rate_limiter::used(
                old(limiter).limits(),
                old(limiter).usage(user),
                word,
                now,
            );
            if silenced(enabled, word) {
                r@ == RouteView::Ignore && final(limiter)@ == old(limiter)@
            } else {
                &&& final(limiter)@ == old(limiter)@.insert(user, use_.0)
                &&& r@ == match use_.1 {
                    Some(why) => RouteView::Reply(why),
                    None => dispatched(
                        *features,
                        auth::opt_auth(auth),
                        npub@,
                        text::opt_str_view(community),
                        word,
                        command_args(message@),
                    ),
                }
            }
        }),
        final(limiter).limits() == old(limiter).limits(),
{
    let (word, args) = split_command(message);
    if let Some(on) = enabled {
        if !on && !text::same(word, "!enable") && !text::same(word, "!disable") {
            return Route::Ignore;
        }
    }
    let user = if npub.is_empty() {
        chat_id
    } else {
        npub
    };
    match limiter.check(user, word, now) {
        RateLimitResult::Deny(why) => Route::Reply(why),
        RateLimitResult::Allow => dispatch(features, auth, npub, community, word, args),
    }
}

/// A command is carried out only for those who have the level it asks for, and only while its
/// feature is on.
pub proof fn law_only_permitted_commands_run(
    features: FeaturesSection,
    auth: AuthView,
    npub: Seq<char>,
    community: Option<Seq<char>>,
    word: Seq<char>,
    args: Seq<char>,
)
    ensures
        match dispatched(features, Some(auth), npub, community, word, args) {
            RouteView::Run(c, a) => {
                &&& auth.level(npub, community).covers(c.level(args))
                &&& (c.feature() is Some ==> features.flag(c.feature()->0))
                &&& a == args
            },
            _ => true,
        },
{
}

/// Without authorization every known command whose feature is on is carried out.
pub proof fn law_unconfigured_auth_allows_all(
    features: FeaturesSection,
    npub: Seq<char>,
    community: Option<Seq<char>>,
    word: Seq<char>,
    args: Seq<char>,
)
    ensures
        match command_named(word) {
            Some(c) => (c.feature() is Some ==> features.flag(c.feature()->0)) ==> dispatched(
                features,
                None,
                npub,
                community,
                word,
                args,
            ) == RouteView::Run(c, args),
            None => dispatched(features, None, npub, community, word, args) == RouteView::Ignore,
        },
{
}

/// The owner is never denied a command.
pub proof fn law_owner_is_never_denied(
    features: FeaturesSection,
    auth: AuthView,
    community: Option<Seq<char>>,
    word: Seq<char>,
    args: Seq<char>,
)
    ensures
        !(dispatched(features, Some(auth), auth.owner, community, word, args) is Reply),
{
}

// ---------------------------------------------------------------------------
// The registry and the help
// ---------------------------------------------------------------------------

/// What the help says of a command.
pub struct CommandMeta {
    pub name: &'static str,
    pub description: &'static str,
    /// The group that the command is listed in; none for the core commands.
    pub feature: Option<Feature>,
    pub auth: AuthLevel,
}

/// What the help says of a command.
pub struct MetaView {
    pub name: Seq<char>,
    pub description: Seq<char>,
    pub feature: Option<Feature>,
    pub auth: AuthLevel,
}

impl View for CommandMeta {
    type V = MetaView;

    open spec fn view(&self) -> MetaView {
        MetaView {
            name: self.name@,
            description: self.description@,
            feature: self.feature,
            auth: self.auth,
        }
    }
}

/// What rows say.
pub open spec fn metas(rows: Seq<CommandMeta>) -> Seq<MetaView> {
    rows.map_values(|m: CommandMeta| m@)
}

/// A row of the registry.
pub open spec fn meta(
    name: Seq<char>,
    description: Seq<char>,
    feature: Option<Feature>,
    auth: AuthLevel,
) -> MetaView {
    MetaView { name, description, feature, auth }
}

fn list_command_meta(
    rows: &mut Vec<CommandMeta>,
    name: &'static str,
    description: &'static str,
    feature: Option<Feature>,
    auth: AuthLevel,
)
    ensures
        metas(final(rows)@) == metas(old(rows)@).push(meta(name@, description@, feature, auth)),
{
    let ghost before = metas(rows@);
    rows.push(CommandMeta { name, description, feature, auth });
    proof {
        assert(metas(rows@) =~= before.push(meta(name@, description@, feature, auth)));
    }
}

/// Rows with the core commands after them.
pub open spec fn with_core(rows: Seq<MetaView>) -> Seq<MetaView> {
    rows.push(
        meta("!ping"@, "Health check"@, None, AuthLevel::Public),
    ).push(
        meta("!repo"@, "Bot repo URL"@, None, AuthLevel::Public),
    ).push(
        meta("!help"@, "Show this help"@, None, AuthLevel::Public),
    ).push(
        meta("!echo"@, "Echo text back"@, None, AuthLevel::Public),
    ).push(
        meta("!whoami"@, "Bot identity"@, None, AuthLevel::Public),
    ).push(
        meta("!auth"@, "Your auth status"@, None, AuthLevel::Public),
    ).push(
        meta("!stats"@, "Bot statistics"@, None, AuthLevel::Public),
    ).push(
        meta("!add"@, "Authorize a user"@, None, AuthLevel::Owner),
    ).push(
        meta("!remove"@, "Deauthorize a user"@, None, AuthLevel::Owner),
    ).push(
        meta("!list"@, "List authorized users"@, None, AuthLevel::Owner),
    ).push(
        meta("!enable"@, "Enable bot in this channel"@, None, AuthLevel::Owner),
    ).push(
        meta("!disable"@, "Disable bot in this channel"@, None, AuthLevel::Owner),
    )
}

fn add_core(rows: &mut Vec<CommandMeta>)
    ensures
        metas(final(rows)@) == with_core(metas(old(rows)@)),
{
    list_command_meta(rows, "!ping", "Health check", None, AuthLevel::Public);
    list_command_meta(rows, "!repo", "Bot repo URL", None, AuthLevel::Public);
    list_command_meta(rows, "!help", "Show this help", None, AuthLevel::Public);
    list_command_meta(rows, "!echo", "Echo text back", None, AuthLevel::Public);
    list_command_meta(rows, "!whoami", "Bot identity", None, AuthLevel::Public);
    list_command_meta(rows, "!auth", "Your auth status", None, AuthLevel::Public);
    list_command_meta(rows, "!stats", "Bot statistics", None, AuthLevel::Public);
    list_command_meta(rows, "!add", "Authorize a user", None, AuthLevel::Owner);
    list_command_meta(rows, "!remove", "Deauthorize a user", None, AuthLevel::Owner);
    list_command_meta(rows, "!list", "List authorized users", None, AuthLevel::Owner);
    list_command_meta(rows, "!enable", "Enable bot in this channel", None, AuthLevel::Owner);
    list_command_meta(rows, "!disable", "Disable bot in this channel", None, AuthLevel::Owner);
}

/// Rows with the utility and fun commands after them.
pub open spec fn with_utility(rows: Seq<MetaView>) -> Seq<MetaView> {
    rows.push(
        meta("!price"@, "Bitcoin price (USD)"@, Some(Feature::Utility), AuthLevel::Public),
    ).push(
        meta("!time"@, "Current time [timezone]"@, Some(Feature::Utility), AuthLevel::Public),
    ).push(
        meta("!roll"@, "Dice roller [NdS]"@, Some(Feature::Utility), AuthLevel::Public),
    ).push(
        meta("!weather"@, "Weather <zipcode>"@, Some(Feature::Utility), AuthLevel::Public),
    ).push(
        meta("!remind"@, "Set a reminder"@, Some(Feature::Utility), AuthLevel::Public),
    ).push(
        meta("!poll"@, "Create a poll"@, Some(Feature::Utility), AuthLevel::Public),
    ).push(
        meta("!translate"@, "Translate <lang> <text>"@, Some(Feature::Utility), AuthLevel::Public),
    ).push(
        meta("!define"@, "Dictionary definition"@, Some(Feature::Utility), AuthLevel::Public),
    ).push(
        meta("!quote"@, "Random inspirational quote"@, Some(Feature::Utility), AuthLevel::Public),
    ).push(
        meta("!joke"@, "Random dad joke"@, Some(Feature::Utility), AuthLevel::Public),
    ).push(
        meta("!fact"@, "Random fun fact"@, Some(Feature::Utility), AuthLevel::Public),
    ).push(
        meta("!meme"@, "Random meme"@, Some(Feature::Utility), AuthLevel::Public),
    ).push(
        meta("!shorten"@, "Shorten a URL"@, Some(Feature::Utility), AuthLevel::Public),
    ).push(
        meta("!delete"@, "Delete a message by ID"@, Some(Feature::Utility), AuthLevel::Authorized),
    ).push(
        meta("!edit"@, "Edit a message by ID"@, Some(Feature::Utility), AuthLevel::Authorized),
    ).push(
        meta("!savefile"@, "Save an attachment to disk"@, Some(Feature::Utility), AuthLevel::Authorized),
    ).push(
        meta("!8ball"@, "Magic 8-ball"@, Some(Feature::Fun), AuthLevel::Public),
    ).push(
        meta("!flip"@, "Flip a coin"@, Some(Feature::Fun), AuthLevel::Public),
    ).push(
        meta("!choose"@, "Pick randomly"@, Some(Feature::Fun), AuthLevel::Public),
    ).push(
        meta("!rps"@, "Rock paper scissors"@, Some(Feature::Fun), AuthLevel::Public),
    )
}

fn add_utility(rows: &mut Vec<CommandMeta>)
    ensures
        metas(final(rows)@) == with_utility(metas(old(rows)@)),
{
    list_command_meta(
        rows,
        "!price",
        "Bitcoin price (USD)",
        Some(Feature::Utility),
        AuthLevel::Public,
    );
    list_command_meta(
        rows,
        "!time",
        "Current time [timezone]",
        Some(Feature::Utility),
        AuthLevel::Public,
    );
    list_command_meta(
        rows,
        "!roll",
        "Dice roller [NdS]",
        Some(Feature::Utility),
        AuthLevel::Public,
    );
    list_command_meta(
        rows,
        "!weather",
        "Weather <zipcode>",
        Some(Feature::Utility),
        AuthLevel::Public,
    );
    list_command_meta(
        rows,
        "!remind",
        "Set a reminder",
        Some(Feature::Utility),
        AuthLevel::Public,
    );
    list_command_meta(rows, "!poll", "Create a poll", Some(Feature::Utility), AuthLevel::Public);
    list_command_meta(
        rows,
        "!translate",
        "Translate <lang> <text>",
        Some(Feature::Utility),
        AuthLevel::Public,
    );
    list_command_meta(
        rows,
        "!define",
        "Dictionary definition",
        Some(Feature::Utility),
        AuthLevel::Public,
    );
    list_command_meta(
        rows,
        "!quote",
        "Random inspirational quote",
        Some(Feature::Utility),
        AuthLevel::Public,
    );
    list_command_meta(rows, "!joke", "Random dad joke", Some(Feature::Utility), AuthLevel::Public);
    list_command_meta(rows, "!fact", "Random fun fact", Some(Feature::Utility), AuthLevel::Public);
    list_command_meta(rows, "!meme", "Random meme", Some(Feature::Utility), AuthLevel::Public);
    list_command_meta(
        rows,
        "!shorten",
        "Shorten a URL",
        Some(Feature::Utility),
        AuthLevel::Public,
    );
    list_command_meta(
        rows,
        "!delete",
        "Delete a message by ID",
        Some(Feature::Utility),
        AuthLevel::Authorized,
    );
    list_command_meta(
        rows,
        "!edit",
        "Edit a message by ID",
        Some(Feature::Utility),
        AuthLevel::Authorized,
    );
    list_command_meta(
        rows,
        "!savefile",
        "Save an attachment to disk",
        Some(Feature::Utility),
        AuthLevel::Authorized,
    );
    list_command_meta(rows, "!8ball", "Magic 8-ball", Some(Feature::Fun), AuthLevel::Public);
    list_command_meta(rows, "!flip", "Flip a coin", Some(Feature::Fun), AuthLevel::Public);
    list_command_meta(rows, "!choose", "Pick randomly", Some(Feature::Fun), AuthLevel::Public);
    list_command_meta(rows, "!rps", "Rock paper scissors", Some(Feature::Fun), AuthLevel::Public);
}

/// Rows with the wallet and Nostr commands after them.
pub open spec fn with_nostr(rows: Seq<MetaView>) -> Seq<MetaView> {
    rows.push(
        meta("!balance"@, "Show Cashu wallet balance"@, Some(Feature::Nostr), AuthLevel::Public),
    ).push(
        meta("!tip"@, "Tip sats as Cashu token"@, Some(Feature::Nostr), AuthLevel::Authorized),
    ).push(
        meta("!zap"@, "Zap sats via NIP-57"@, Some(Feature::Nostr), AuthLevel::Authorized),
    ).push(
        meta("!deposit"@, "Generate Lightning deposit invoice"@, Some(Feature::Nostr), AuthLevel::Authorized),
    ).push(
        meta("!withdraw"@, "Pay Lightning invoice from wallet"@, Some(Feature::Nostr), AuthLevel::Authorized),
    ).push(
        meta("!nostr"@, "Look up a Nostr profile"@, Some(Feature::Nostr), AuthLevel::Public),
    ).push(
        meta("!nip05"@, "Verify a NIP-05 identifier"@, Some(Feature::Nostr), AuthLevel::Public),
    ).push(
        meta("!follow"@, "Follow a user on Nostr"@, Some(Feature::Nostr), AuthLevel::Owner),
    )
}

fn add_nostr(rows: &mut Vec<CommandMeta>)
    ensures
        metas(final(rows)@) == with_nostr(metas(old(rows)@)),
{
    list_command_meta(
        rows,
        "!balance",
        "Show Cashu wallet balance",
        Some(Feature::Nostr),
        AuthLevel::Public,
    );
    list_command_meta(
        rows,
        "!tip",
        "Tip sats as Cashu token",
        Some(Feature::Nostr),
        AuthLevel::Authorized,
    );
    list_command_meta(
        rows,
        "!zap",
        "Zap sats via NIP-57",
        Some(Feature::Nostr),
        AuthLevel::Authorized,
    );
    list_command_meta(
        rows,
        "!deposit",
        "Generate Lightning deposit invoice",
        Some(Feature::Nostr),
        AuthLevel::Authorized,
    );
    list_command_meta(
        rows,
        "!withdraw",
        "Pay Lightning invoice from wallet",
        Some(Feature::Nostr),
        AuthLevel::Authorized,
    );
    list_command_meta(
        rows,
        "!nostr",
        "Look up a Nostr profile",
        Some(Feature::Nostr),
        AuthLevel::Public,
    );
    list_command_meta(
        rows,
        "!nip05",
        "Verify a NIP-05 identifier",
        Some(Feature::Nostr),
        AuthLevel::Public,
    );
    list_command_meta(
        rows,
        "!follow",
        "Follow a user on Nostr",
        Some(Feature::Nostr),
        AuthLevel::Owner,
    );
}

/// Rows with the moderation, community and git commands after them.
pub open spec fn with_community(rows: Seq<MetaView>) -> Seq<MetaView> {
    rows.push(
        meta("!kick"@, "Kick a member"@, Some(Feature::Moderation), AuthLevel::Authorized),
    ).push(
        meta("!ban"@, "Ban a member"@, Some(Feature::Moderation), AuthLevel::Owner),
    ).push(
        meta("!unban"@, "Lift a ban"@, Some(Feature::Moderation), AuthLevel::Owner),
    ).push(
        meta("!warn"@, "Warn a member"@, Some(Feature::Moderation), AuthLevel::Authorized),
    ).push(
        meta("!warnings"@, "Show warning history"@, Some(Feature::Moderation), AuthLevel::Authorized),
    ).push(
        meta("!welcome"@, "Toggle welcome messages on/off"@, Some(Feature::Community), AuthLevel::Owner),
    ).push(
        meta("!grantmod"@, "Grant admin role"@, Some(Feature::Moderation), AuthLevel::Owner),
    ).push(
        meta("!revokemod"@, "Revoke admin role"@, Some(Feature::Moderation), AuthLevel::Owner),
    ).push(
        meta("!level"@, "Show your level and XP"@, Some(Feature::Community), AuthLevel::Public),
    ).push(
        meta("!rank"@, "Show your level and XP"@, Some(Feature::Community), AuthLevel::Public),
    ).push(
        meta("!leaderboard"@, "Top 10 users by XP"@, Some(Feature::Community), AuthLevel::Public),
    ).push(
        meta("!profile"@, "Show user profile card"@, Some(Feature::Community), AuthLevel::Public),
    ).push(
        meta("!giveaway"@, "Start a giveaway (Authorized+)"@, Some(Feature::Community), AuthLevel::Authorized),
    ).push(
        meta("!rep"@, "Give reputation (+1)"@, Some(Feature::Community), AuthLevel::Public),
    ).push(
        meta("!git"@, "Git repo monitor (add/list/remove/poll)"@, Some(Feature::GitMonitor), AuthLevel::Public),
    ).push(
        meta("!community"@, "v2 community management (create/info/leave/dissolve)"@, Some(Feature::Community), AuthLevel::Authorized),
    ).push(
        meta("!invite"@, "Create invite link or invite by npub"@, Some(Feature::Community), AuthLevel::Authorized),
    ).push(
        meta("!join"@, "Join a community via invite link"@, Some(Feature::Community), AuthLevel::Owner),
    ).push(
        meta("!members"@, "List community members"@, Some(Feature::Community), AuthLevel::Public),
    ).push(
        meta("!channels"@, "List community channels"@, Some(Feature::Community), AuthLevel::Public),
    ).push(
        meta("!roles"@, "Show community roles"@, Some(Feature::Community), AuthLevel::Public),
    ).push(
        meta("!caps"@, "Show community capabilities"@, Some(Feature::Community), AuthLevel::Public),
    )
}

fn add_community(rows: &mut Vec<CommandMeta>)
    ensures
        metas(final(rows)@) == with_community(metas(old(rows)@)),
{
    list_command_meta(
        rows,
        "!kick",
        "Kick a member",
        Some(Feature::Moderation),
        AuthLevel::Authorized,
    );
    list_command_meta(rows, "!ban", "Ban a member", Some(Feature::Moderation), AuthLevel::Owner);
    list_command_meta(rows, "!unban", "Lift a ban", Some(Feature::Moderation), AuthLevel::Owner);
    list_command_meta(
        rows,
        "!warn",
        "Warn a member",
        Some(Feature::Moderation),
        AuthLevel::Authorized,
    );
    list_command_meta(
        rows,
        "!warnings",
        "Show warning history",
        Some(Feature::Moderation),
        AuthLevel::Authorized,
    );
    list_command_meta(
        rows,
        "!welcome",
        "Toggle welcome messages on/off",
        Some(Feature::Community),
        AuthLevel::Owner,
    );
    list_command_meta(
        rows,
        "!grantmod",
        "Grant admin role",
        Some(Feature::Moderation),
        AuthLevel::Owner,
    );
    list_command_meta(
        rows,
        "!revokemod",
        "Revoke admin role",
        Some(Feature::Moderation),
        AuthLevel::Owner,
    );
    list_command_meta(
        rows,
        "!level",
        "Show your level and XP",
        Some(Feature::Community),
        AuthLevel::Public,
    );
    list_command_meta(
        rows,
        "!rank",
        "Show your level and XP",
        Some(Feature::Community),
        AuthLevel::Public,
    );
    list_command_meta(
        rows,
        "!leaderboard",
        "Top 10 users by XP",
        Some(Feature::Community),
        AuthLevel::Public,
    );
    list_command_meta(
        rows,
        "!profile",
        "Show user profile card",
        Some(Feature::Community),
        AuthLevel::Public,
    );
    list_command_meta(
        rows,
        "!giveaway",
        "Start a giveaway (Authorized+)",
        Some(Feature::Community),
        AuthLevel::Authorized,
    );
    list_command_meta(
        rows,
        "!rep",
        "Give reputation (+1)",
        Some(Feature::Community),
        AuthLevel::Public,
    );
    list_command_meta(
        rows,
        "!git",
        "Git repo monitor (add/list/remove/poll)",
        Some(Feature::GitMonitor),
        AuthLevel::Public,
    );
    list_command_meta(
        rows,
        "!community",
        "v2 community management (create/info/leave/dissolve)",
        Some(Feature::Community),
        AuthLevel::Authorized,
    );
    list_command_meta(
        rows,
        "!invite",
        "Create invite link or invite by npub",
        Some(Feature::Community),
        AuthLevel::Authorized,
    );
    list_command_meta(
        rows,
        "!join",
        "Join a community via invite link",
        Some(Feature::Community),
        AuthLevel::Owner,
    );
    list_command_meta(
        rows,
        "!members",
        "List community members",
        Some(Feature::Community),
        AuthLevel::Public,
    );
    list_command_meta(
        rows,
        "!channels",
        "List community channels",
        Some(Feature::Community),
        AuthLevel::Public,
    );
    list_command_meta(
        rows,
        "!roles",
        "Show community roles",
        Some(Feature::Community),
        AuthLevel::Public,
    );
    list_command_meta(
        rows,
        "!caps",
        "Show community capabilities",
        Some(Feature::Community),
        AuthLevel::Public,
    );
}

/// All commands, in the order of the help.
pub open spec fn registry() -> Seq<MetaView> {
    with_community(with_nostr(with_utility(with_core(Seq::empty()))))
}

/// All commands, in the order of the help.
pub fn command_registry() -> (r: Vec<CommandMeta>)
    ensures
        metas(r@) == registry(),
{
    let mut rows: Vec<CommandMeta> = Vec::new();
    proof {
        assert(metas(rows@) =~= Seq::empty());
    }
    add_core(&mut rows);
    add_utility(&mut rows);
    add_nostr(&mut rows);
    add_community(&mut rows);
    rows
}

/// Which commands a section of the help lists.
#[derive(Debug, Clone, Copy, PartialEq, Eq, Structural)]
pub enum Section {
    /// Core commands for everyone.
    General,
    /// The commands of a feature.
    Of(Feature),
    /// Core commands for the owner.
    Owner,
}

/// Whether a section lists a command.
pub open spec fn lists(section: Section, features: FeaturesSection, m: MetaView) -> bool {
    match section {
        Section::General => m.feature is None && m.auth != AuthLevel::Owner,
        Section::Of(f) => m.feature == Some(f) && features.flag(f),
        Section::Owner => m.feature is None && m.auth == AuthLevel::Owner,
    }
}

/// The lines of a section.
pub open spec fn section_lines(
    rows: Seq<MetaView>,
    section: Section,
    features: FeaturesSection,
) -> Seq<Seq<char>>
    decreases rows.len(),
{
    if rows.len() == 0 {
        Seq::empty()
    } else if lists(section, features, rows.last()) {
        section_lines(rows.drop_last(), section, features).push(help_line(rows.last()))
    } else {
        section_lines(rows.drop_last(), section, features)
    }
}

/// The help with a section after it, unless that is empty.
pub open spec fn with_section(
    parts: Seq<Seq<char>>,
    header: Seq<char>,
    section: Section,
    features: FeaturesSection,
) -> Seq<Seq<char>> {
    let lines = section_lines(registry(), section, features);
    if lines.len() == 0 {
        parts
    } else {
        parts.push(header + "\n"@ + text::joined(lines, "\n"@))
    }
}

/// The sections of the help.
pub open spec fn help_parts(f: FeaturesSection) -> Seq<Seq<char>> {
    let p = Seq::empty();
    let p = with_section(p, "📋 General"@, Section::General, f);
    let p = with_section(p, "🛠️ Utility"@, Section::Of(Feature::Utility), f);
    let p = with_section(p, "🎮 Fun"@, Section::Of(Feature::Fun), f);
    let p = with_section(p, "🌟 Community"@, Section::Of(Feature::Community), f);
    let p = with_section(p, "⚡ Nostr"@, Section::Of(Feature::Nostr), f);
    let p = with_section(p, "🤖 AI"@, Section::Of(Feature::Ai), f);
    let p = with_section(p, "🛡️ Moderation"@, Section::Of(Feature::Moderation), f);
    let p = with_section(p, "📦 Git Monitor"@, Section::Of(Feature::GitMonitor), f);
    let p = with_section(p, "🔐 Owner"@, Section::Owner, f);
    p
}

/// The help.
pub open spec fn help(f: FeaturesSection) -> Seq<char> {
    "Available commands:\n\n"@ + text::joined(help_parts(f), "\n\n"@)
}

fn is_listed(section: Section, features: &FeaturesSection, m: &CommandMeta) -> (r: bool)
    ensures
        r == lists(section, *features, m@),
{
    let owner = match m.auth {
        AuthLevel::Owner => true,
        _ => false,
    };
    match section {
        Section::General => m.feature.is_none() && !owner,
        Section::Of(f) => match m.feature {
            Some(g) => g == f && features.is_enabled(f),
            None => false,
        },
        Section::Owner => m.feature.is_none() && owner,
    }
}

fn lines_of(rows: &Vec<CommandMeta>, section: Section, features: &FeaturesSection) -> (r: Vec<String>)
    ensures
        text::views(r@) == section_lines(metas(rows@), section, *features),
{
    let ghost all = metas(rows@);
    let mut out: Vec<String> = Vec::new();
    let mut i: usize = 0;
    proof {
        assert(all.take(0) =~= Seq::empty());
        assert(text::views(out@) =~= Seq::empty());
    }
    while i < rows.len()
        invariant
            i <= rows.len(),
            all == metas(rows@),
            text::views(out@) == section_lines(all.take(i as int), section, *features),
        decreases rows.len() - i,
    {
        let ghost before = text::views(out@);
        let m = &rows[i];
        proof {
            assert(all.take(i + 1).drop_last() =~= all.take(i as int));
            assert(all.take(i + 1).last() == m@);
        }
        if is_listed(section, features, m) {
            let line = text::cat4("  ", m.name, " — ", m.description);
            let ghost seen = line@;
            out.push(line);
            proof {
                assert(text::views(out@) =~= before.push(seen));
            }
        }
        i = i + 1;
    }
    proof {
        assert(all.take(i as int) =~= all);
    }
    out
}

fn add_section(
    parts: &mut Vec<String>,
    rows: &Vec<CommandMeta>,
    header: &str,
    section: Section,
    features: &FeaturesSection,
)
    requires
        metas(rows@) == registry(),
    ensures
        text::views(final(parts)@) == with_section(
            text::views(old(parts)@),
            header@,
            section,
            *features,
        ),
{
    let ghost before = text::views(parts@);
    let lines = lines_of(rows, section, features);
    let ghost seen = text::views(lines@);
    proof {
        assert(seen.len() == lines.len());
    }
    if lines.len() > 0 {
        let part = text::cat3(header, "\n", text::join(&lines, "\n").as_str());
        let ghost whole = part@;
        parts.push(part);
        proof {
            assert(text::views(parts@) =~= before.push(whole));
        }
    }
}

/// The help: the commands by section, without those whose feature is off.
pub fn help_text(features: &FeaturesSection) -> (r: String)
    ensures
        r@ == help(*features),
{
    let rows = command_registry();
    let mut parts: Vec<String> = Vec::new();
    proof {
        assert(text::views(parts@) =~= Seq::empty());
    }
    add_section(&mut parts, &rows, "📋 General", Section::General, features);
    add_section(&mut parts, &rows, "🛠️ Utility", Section::Of(Feature::Utility), features);
    add_section(&mut parts, &rows, "🎮 Fun", Section::Of(Feature::Fun), features);
    add_section(&mut parts, &rows, "🌟 Community", Section::Of(Feature::Community), features);
    add_section(&mut parts, &rows, "⚡ Nostr", Section::Of(Feature::Nostr), features);
    add_section(&mut parts, &rows, "🤖 AI", Section::Of(Feature::Ai), features);
    add_section(&mut parts, &rows, "🛡️ Moderation", Section::Of(Feature::Moderation), features);
    add_section(&mut parts, &rows, "📦 Git Monitor", Section::Of(Feature::GitMonitor), features);
    add_section(&mut parts, &rows, "🔐 Owner", Section::Owner, features);
    text::cat2("Available commands:\n\n", text::join(&parts, "\n\n").as_str())
}

/// Answers `!help`: at most once in three minutes in a channel.
pub fn help_command(
    shown: &mut Cooldowns,
    features: &FeaturesSection,
    channel_id: &str,
    now: u64,
) -> (r: String)
    ensures
        ({
            let held = cooldown::recent(
                old(shown)@,
                channel_id@,
                ""@,
                now,
                HELP_COOLDOWN_NANOS,
            );
            &&& r@ == if held {
                "ℹ️ Help was recently shown in this channel. Try again in a few minutes."@
            } else {
                help(*features)
            }
            &&& final(shown)@ == if held {
                old(shown)@
            } else {
                cooldown::stamped(old(shown)@, channel_id@, ""@, now)
            }
        }),
{
    if shown.pass(channel_id, "", now, HELP_COOLDOWN_NANOS) {
        help_text(features)
    } else {
        "ℹ️ Help was recently shown in this channel. Try again in a few minutes.".to_owned()
    }
}

/// Whether a row is called `s`.
pub open spec fn registered(rows: Seq<MetaView>, s: Seq<char>) -> bool {
    exists|i: int| 0 <= i < rows.len() && (#[trigger] rows[i]).name == s
}

broadcast proof fn lemma_registered_push(rows: Seq<MetaView>, m: MetaView, s: Seq<char>)
    ensures
        #[trigger] registered(rows.push(m), s) == (registered(rows, s) || m.name == s),
{
    let more = rows.push(m);
    if registered(rows, s) {
        let i = choose|i: int| 0 <= i < rows.len() && (#[trigger] rows[i]).name == s;
        assert(more[i].name == s);
    }
    if m.name == s {
        assert(more[rows.len() as int].name == s);
    }
    if registered(more, s) {
        let i = choose|i: int| 0 <= i < more.len() && (#[trigger] more[i]).name == s;
        if i < rows.len() {
            assert(rows[i].name == s);
        }
    }
}

proof fn lemma_core_rows(rows: Seq<MetaView>, s: Seq<char>)
    ensures
        registered(with_core(rows), s) == ({
            ||| registered(rows, s)
            ||| s == "!ping"@
            ||| s == "!repo"@
            ||| s == "!help"@
            ||| s == "!echo"@
            ||| s == "!whoami"@
            ||| s == "!auth"@
            ||| s == "!stats"@
            ||| s == "!add"@
            ||| s == "!remove"@
            ||| s == "!list"@
            ||| s == "!enable"@
            ||| s == "!disable"@
        }),
{
    broadcast use lemma_registered_push;

}

proof fn lemma_utility_rows(rows: Seq<MetaView>, s: Seq<char>)
    ensures
        registered(with_utility(rows), s) == ({
            ||| registered(rows, s)
            ||| s == "!price"@
            ||| s == "!time"@
            ||| s == "!roll"@
            ||| s == "!weather"@
            ||| s == "!remind"@
            ||| s == "!poll"@
            ||| s == "!translate"@
            ||| s == "!define"@
            ||| s == "!quote"@
            ||| s == "!joke"@
            ||| s == "!fact"@
            ||| s == "!meme"@
            ||| s == "!shorten"@
            ||| s == "!delete"@
            ||| s == "!edit"@
            ||| s == "!savefile"@
            ||| s == "!8ball"@
            ||| s == "!flip"@
            ||| s == "!choose"@
            ||| s == "!rps"@
        }),
{
    broadcast use lemma_registered_push;

}

proof fn lemma_nostr_rows(rows: Seq<MetaView>, s: Seq<char>)
    ensures
        registered(with_nostr(rows), s) == ({
            ||| registered(rows, s)
            ||| s == "!balance"@
            ||| s == "!tip"@
            ||| s == "!zap"@
            ||| s == "!deposit"@
            ||| s == "!withdraw"@
            ||| s == "!nostr"@
            ||| s == "!nip05"@
            ||| s == "!follow"@
        }),
{
    broadcast use lemma_registered_push;

}

proof fn lemma_community_rows(rows: Seq<MetaView>, s: Seq<char>)
    ensures
        registered(with_community(rows), s) == ({
            ||| registered(rows, s)
            ||| s == "!kick"@
            ||| s == "!ban"@
            ||| s == "!unban"@
            ||| s == "!warn"@
            ||| s == "!warnings"@
            ||| s == "!welcome"@
            ||| s == "!grantmod"@
            ||| s == "!revokemod"@
            ||| s == "!level"@
            ||| s == "!rank"@
            ||| s == "!leaderboard"@
            ||| s == "!profile"@
            ||| s == "!giveaway"@
            ||| s == "!rep"@
            ||| s == "!git"@
            ||| s == "!community"@
            ||| s == "!invite"@
            ||| s == "!join"@
            ||| s == "!members"@
            ||| s == "!channels"@
            ||| s == "!roles"@
            ||| s == "!caps"@
        }),
{
    broadcast use lemma_registered_push;

}

/// The commands that the registry names are exactly those that messages are routed to.
pub proof fn law_registry_names_what_runs(s: Seq<char>)
    ensures
        registered(registry(), s) <==> command_named(s) is Some,
{
    let core = with_core(Seq::empty());
    let utility = with_utility(core);
    let nostr = with_nostr(utility);
    lemma_core_rows(Seq::empty(), s);
    lemma_utility_rows(core, s);
    lemma_nostr_rows(utility, s);
    lemma_community_rows(nostr, s);
}

/// The line that the help has for a command.
pub open spec fn help_line(m: MetaView) -> Seq<char> {
    "  "@ + m.name + " — "@ + m.description
}

proof fn lemma_line_listed(rows: Seq<MetaView>, section: Section, f: FeaturesSection, i: int) -> (k: int)
    requires
        0 <= i < rows.len(),
        lists(section, f, rows[i]),
    ensures
        0 <= k < section_lines(rows, section, f).len(),
        section_lines(rows, section, f)[k] == help_line(rows[i]),
    decreases rows.len(),
{
    let init = rows.drop_last();
    if i == init.len() {
        section_lines(init, section, f).len() as int
    } else {
        assert(init[i] == rows[i]);
        lemma_line_listed(init, section, f, i)
    }
}

/// A section of the help with its header.
pub open spec fn section_text(header: Seq<char>, section: Section, f: FeaturesSection) -> Seq<char> {
    header + "\n"@ + text::joined(section_lines(registry(), section, f), "\n"@)
}

proof fn lemma_section_kept(
    parts: Seq<Seq<char>>,
    header: Seq<char>,
    section: Section,
    f: FeaturesSection,
)
    ensures
        ({
            let more = with_section(parts, header, section, f);
            &&& forall|p: Seq<char>| parts.contains(p) ==> #[trigger] more.contains(p)
            &&& section_lines(registry(), section, f).len() > 0 ==> more.contains(
                section_text(header, section, f),
            )
        }),
{
    let more = with_section(parts, header, section, f);
    assert forall|p: Seq<char>| parts.contains(p) implies #[trigger] more.contains(p) by {
        let k = choose|k: int| 0 <= k < parts.len() && parts[k] == p;
        assert(more[k] == p);
    }
    if section_lines(registry(), section, f).len() > 0 {
        assert(more[parts.len() as int] == section_text(header, section, f));
    }
}

/// The header of a section.
pub open spec fn section_header(section: Section) -> Seq<char> {
    match section {
        Section::General => "📋 General"@,
        Section::Of(Feature::Utility) => "🛠️ Utility"@,
        Section::Of(Feature::Fun) => "🎮 Fun"@,
        Section::Of(Feature::Community) => "🌟 Community"@,
        Section::Of(Feature::Nostr) => "⚡ Nostr"@,
        Section::Of(Feature::Ai) => "🤖 AI"@,
        Section::Of(Feature::Moderation) => "🛡️ Moderation"@,
        Section::Of(Feature::GitMonitor) => "📦 Git Monitor"@,
        Section::Owner => "🔐 Owner"@,
    }
}

proof fn lemma_help_has_section(f: FeaturesSection, section: Section)
    requires
        section_lines(registry(), section, f).len() > 0,
    ensures
        help_parts(f).contains(section_text(section_header(section), section, f)),
{
    let p0 = Seq::empty();
    let p1 = with_section(p0, "📋 General"@, Section::General, f);
    let p2 = with_section(p1, "🛠️ Utility"@, Section::Of(Feature::Utility), f);
    let p3 = with_section(p2, "🎮 Fun"@, Section::Of(Feature::Fun), f);
    let p4 = with_section(p3, "🌟 Community"@, Section::Of(Feature::Community), f);
    let p5 = with_section(p4, "⚡ Nostr"@, Section::Of(Feature::Nostr), f);
    let p6 = with_section(p5, "🤖 AI"@, Section::Of(Feature::Ai), f);
    let p7 = with_section(p6, "🛡️ Moderation"@, Section::Of(Feature::Moderation), f);
    let p8 = with_section(p7, "📦 Git Monitor"@, Section::Of(Feature::GitMonitor), f);
    lemma_section_kept(p0, "📋 General"@, Section::General, f);
    lemma_section_kept(p1, "🛠️ Utility"@, Section::Of(Feature::Utility), f);
    lemma_section_kept(p2, "🎮 Fun"@, Section::Of(Feature::Fun), f);
    lemma_section_kept(p3, "🌟 Community"@, Section::Of(Feature::Community), f);
    lemma_section_kept(p4, "⚡ Nostr"@, Section::Of(Feature::Nostr), f);
    lemma_section_kept(p5, "🤖 AI"@, Section::Of(Feature::Ai), f);
    lemma_section_kept(p6, "🛡️ Moderation"@, Section::Of(Feature::Moderation), f);
    lemma_section_kept(p7, "📦 Git Monitor"@, Section::Of(Feature::GitMonitor), f);
    lemma_section_kept(p8, "🔐 Owner"@, Section::Owner, f);
    let t = section_text(section_header(section), section, f);
    assert(p1.contains(t) ==> p2.contains(t));
    assert(p2.contains(t) ==> p3.contains(t));
    assert(p3.contains(t) ==> p4.contains(t));
    assert(p4.contains(t) ==> p5.contains(t));
    assert(p5.contains(t) ==> p6.contains(t));
    assert(p6.contains(t) ==> p7.contains(t));
    assert(p7.contains(t) ==> p8.contains(t));
    assert(p8.contains(t) ==> help_parts(f).contains(t));
}

/// The help has a line for every command whose feature is on.
pub proof fn law_help_lists_every_command(f: FeaturesSection, i: int)
    requires
        0 <= i < registry().len(),
        match registry()[i].feature {
            Some(feature) => f.flag(feature),
            None => true,
        },
    ensures
        text::has_substring(help(f), help_line(registry()[i])),
{
    let m = registry()[i];
    let section = match m.feature {
        Some(feature) => Section::Of(feature),
        None => if m.auth == AuthLevel::Owner {
            Section::Owner
        } else {
            Section::General
        },
    };
    let lines = section_lines(registry(), section, f);
    let k = lemma_line_listed(registry(), section, f, i);
    lemma_help_has_section(f, section);
    let part = section_text(section_header(section), section, f);
    let body = text::joined(lines, "\n"@);
    text::lemma_joined_holds(lines, "\n"@, k);
    text::lemma_substring_between(section_header(section) + "\n"@, body, Seq::empty());
    assert(section_header(section) + "\n"@ + body + Seq::empty() =~= part);
    text::lemma_substring_of_part(part, body, help_line(m));
    let parts = help_parts(f);
    let j = choose|j: int| 0 <= j < parts.len() && parts[j] == part;
    let all = text::joined(parts, "\n\n"@);
    text::lemma_joined_holds(parts, "\n\n"@, j);
    text::lemma_substring_of_part(all, part, help_line(m));
    text::lemma_substring_between("Available commands:\n\n"@, all, Seq::empty());
    assert("Available commands:\n\n"@ + all + Seq::empty() =~= help(f));
    text::lemma_substring_of_part(help(f), all, help_line(m));
}

// ---------------------------------------------------------------------------
// Built-in commands
// ---------------------------------------------------------------------------

/// The answer to `!ping`.
pub fn ping_command() -> (r: &'static str)
    ensures
        r@ == "pong 🏓"@,
{
    "pong 🏓"
}

/// The answer to `!repo`.
pub fn repo_command() -> (r: &'static str)
    ensures
        r@ == "📦 concord-bots\nhttps://github.com/CentauriAgent/concord-bots\n\nClone it, build your own bot, join the fleet! 🚢"@,
{
    "📦 concord-bots\nhttps://github.com/CentauriAgent/concord-bots\n\nClone it, build your own bot, join the fleet! 🚢"
}

/// The answer to `!echo`.
pub fn echo_command(args: &str) -> (r: String)
    ensures
        r@ == if args@.len() == 0 {
            "Usage: !echo <text>"@
        } else {
            args@
        },
{
    if args.is_empty() {
        "Usage: !echo <text>".to_owned()
    } else {
        args.to_owned()
    }
}

/// The answer to `!whoami`.
pub fn whoami_command(npub: &str, version: &str) -> (r: String)
    ensures
        r@ == "I am concord-bot 🤖\nnpub: "@ + npub@ + "\nFramework: concord-bots v"@ + version@,
{
    text::cat4("I am concord-bot 🤖\nnpub: ", npub, "\nFramework: concord-bots v", version)
}

/// Where a status holds.
pub open spec fn scope_name(community: Option<Seq<char>>) -> Seq<char> {
    if community is Some {
        "this community"@
    } else {
        "DMs (global only)"@
    }
}

/// What a user is told of their level.
pub open spec fn auth_status(
    auth: Option<AuthView>,
    npub: Seq<char>,
    community: Option<Seq<char>>,
) -> Seq<char> {
    match auth {
        None => "Auth system is not configured. All commands are public."@,
        Some(a) => if npub.len() == 0 {
            "⚠️ Could not determine your npub from this message."@
        } else {
            match a.level(npub, community) {
                AuthLevel::Owner => "👑 You are the **owner**.\nnpub: "@ + npub,
                AuthLevel::Authorized => "✅ You are **authorized** in "@ + scope_name(community)
                    + ".\nnpub: "@ + npub,
                AuthLevel::Public => "❌ You are **not authorized** in "@ + scope_name(community)
                    + ".\nnpub: "@ + npub + "\nAsk the owner to run: !add "@ + npub,
            }
        },
    }
}

/// Answers `!auth`.
pub fn auth_command(auth: Option<&AuthManager>, npub: &str, community: Option<&str>) -> (r: String)
    ensures
        r@ == auth_status(auth::opt_auth(auth), npub@, text::opt_str_view(community)),
{
    match auth {
        None => "Auth system is not configured. All commands are public.".to_owned(),
        Some(a) => {
            if npub.is_empty() {
                return "⚠️ Could not determine your npub from this message.".to_owned();
            }
            let scope = if community.is_some() {
                "this community"
            } else {
                "DMs (global only)"
            };
            match a.check(npub, community) {
                AuthLevel::Owner => text::cat2("👑 You are the **owner**.\nnpub: ", npub),
                AuthLevel::Authorized => text::cat4(
                    "✅ You are **authorized** in ",
                    scope,
                    ".\nnpub: ",
                    npub,
                ),
                AuthLevel::Public => text::cat6(
                    "❌ You are **not authorized** in ",
                    scope,
                    ".\nnpub: ",
                    npub,
                    "\nAsk the owner to run: !add ",
                    npub,
                ),
            }
        },
    }
}

/// What the commands on authorized users say where there is no owner.
pub fn unconfigured_reply() -> (r: &'static str)
    ensures
        r@ == "Auth system is not configured."@,
{
    "Auth system is not configured."
}

/// The user that `!add` and `!remove` name.
pub open spec fn named_user(args: Seq<char>) -> Seq<char> {
    handlers::plain_npub(text::entry_at(text::words(args), 0))
}

/// The list that `!add` and `!remove` work on: the global one where they say so.
pub open spec fn named_list(args: Seq<char>, community: Option<Seq<char>>) -> Option<Seq<char>> {
    if text::entry_at(text::words(args), 1) == "global"@ {
        None
    } else {
        community
    }
}

/// Why `!add` does nothing, if it does.
pub open spec fn add_refusal(a: AuthView, args: Seq<char>, community: Option<Seq<char>>) -> Option<
    Seq<char>,
> {
    let npub = named_user(args);
    if text::words(args).len() == 0 {
        Some(
            "Usage: !add <npub> [global]\n\nAdds user to this community. Use 'global' to authorize in all communities."@,
        )
    } else if !"npub1"@.is_prefix_of(npub) {
        Some("⚠️ That doesn't look like a valid npub. Use npub1... or nostr:npub1..."@)
    } else if npub == a.owner {
        Some("ℹ️ That npub is already the owner — no need to add."@)
    } else if a.authorizes(npub, named_list(args, community)) {
        Some("ℹ️ "@ + npub + " is already authorized "@ + add_scope(args) + "."@)
    } else {
        None
    }
}

/// How `!add` calls the list it works on.
pub open spec fn add_scope(args: Seq<char>) -> Seq<char> {
    if text::entry_at(text::words(args), 1) == "global"@ {
        "globally"@
    } else {
        "in this community"@
    }
}

/// How `!remove` calls the list it works on.
pub open spec fn remove_scope(args: Seq<char>) -> Seq<char> {
    if text::entry_at(text::words(args), 1) == "global"@ {
        "global"@
    } else {
        "this community"@
    }
}

/// Answers `!add`: the user is put on the list of the community, or on the global one.
pub fn add_command(auth: &mut AuthManager, args: &str, community: Option<&str>) -> (r: String)
    ensures
        ({
            let npub = named_user(args@);
            let list = named_list(args@, text::opt_str_view(community));
            match add_refusal(old(auth)@, args@, text::opt_str_view(community)) {
                Some(why) => r@ == why && final(auth)@ == old(auth)@,
                None => r@ == "✅ Added "@ + npub + " to authorized users "@ + add_scope(args@)
                    + "."@ && final(auth)@ == old(auth)@.with_list(
                    list,
                    old(auth)@.list_of(list).insert(npub),
                ),
            }
        }),
        final(auth).persists() == old(auth).persists(),
{
    let parts = text::split_words(args);
    let ghost words = text::views(parts@);
    proof {
        assert(words.len() == parts.len());
    }
    if parts.len() == 0 {
        return "Usage: !add <npub> [global]\n\nAdds user to this community. Use 'global' to authorize in all communities.".to_owned();
    }
    let npub = handlers::normalize_npub(text::list_get(&parts, 0));
    let everywhere = text::same(text::list_get(&parts, 1), "global");
    if !text::starts_with(npub.as_str(), "npub1") {
        return "⚠️ That doesn't look like a valid npub. Use npub1... or nostr:npub1...".to_owned();
    }
    if auth.is_owner(npub.as_str()) {
        return "ℹ️ That npub is already the owner — no need to add.".to_owned();
    }
    let list: Option<&str> = if everywhere {
        None
    } else {
        community
    };
    let scope = if everywhere {
        "globally"
    } else {
        "in this community"
    };
    proof {
        assert(text::opt_str_view(list) == named_list(args@, text::opt_str_view(community)));
    }
    if auth.is_authorized(npub.as_str(), list) {
        return text::cat5("ℹ️ ", npub.as_str(), " is already authorized ", scope, ".");
    }
    let _ = auth.add(npub.as_str(), list);
    text::cat5("✅ Added ", npub.as_str(), " to authorized users ", scope, ".")
}

/// Why `!remove` does nothing, if it does.
pub open spec fn remove_refusal(
    a: AuthView,
    args: Seq<char>,
    community: Option<Seq<char>>,
) -> Option<Seq<char>> {
    let npub = named_user(args);
    if text::words(args).len() == 0 {
        Some("Usage: !remove <npub> [global]"@)
    } else if npub.len() == 0 {
        Some("Usage: !remove <npub>"@)
    } else if npub == a.owner {
        Some("⚠️ Cannot remove the owner."@)
    } else if !a.authorizes(npub, named_list(args, community)) {
        Some("ℹ️ "@ + npub + " is not authorized in "@ + remove_scope(args) + "."@)
    } else {
        None
    }
}

/// Answers `!remove`: the user is taken off the list of the community, or off the global one. One
/// who is authorized in the community only by the global list stays on that.
pub fn remove_command(auth: &mut AuthManager, args: &str, community: Option<&str>) -> (r: String)
    ensures
        ({
            let npub = named_user(args@);
            let list = named_list(args@, text::opt_str_view(community));
            match remove_refusal(old(auth)@, args@, text::opt_str_view(community)) {
                Some(why) => r@ == why && final(auth)@ == old(auth)@,
                None => r@ == "✅ Removed "@ + npub + " from "@ + remove_scope(args@)
                    + " authorized users."@ && final(auth)@ == if old(auth)@.list_of(
                    list,
                ).contains(npub) {
                    old(auth)@.with_list(list, old(auth)@.list_of(list).remove(npub))
                } else {
                    old(auth)@
                },
            }
        }),
        final(auth).persists() == old(auth).persists(),
{
    let parts = text::split_words(args);
    let ghost words = text::views(parts@);
    proof {
        assert(words.len() == parts.len());
    }
    if parts.len() == 0 {
        return "Usage: !remove <npub> [global]".to_owned();
    }
    let npub = handlers::normalize_npub(text::list_get(&parts, 0));
    let everywhere = text::same(text::list_get(&parts, 1), "global");
    if npub.as_str().is_empty() {
        return "Usage: !remove <npub>".to_owned();
    }
    if auth.is_owner(npub.as_str()) {
        return "⚠️ Cannot remove the owner.".to_owned();
    }
    let list: Option<&str> = if everywhere {
        None
    } else {
        community
    };
    let scope = if everywhere {
        "global"
    } else {
        "this community"
    };
    proof {
        assert(text::opt_str_view(list) == named_list(args@, text::opt_str_view(community)));
    }
    if !auth.is_authorized(npub.as_str(), list) {
        return text::cat5("ℹ️ ", npub.as_str(), " is not authorized in ", scope, ".");
    }
    let _ = auth.remove(npub.as_str(), list);
    text::cat5("✅ Removed ", npub.as_str(), " from ", scope, " authorized users.")
}

/// A titled block of names, or nothing for none.
pub open spec fn name_block(title: Seq<char>, names: Seq<Seq<char>>) -> Seq<Seq<char>> {
    if names.len() == 0 {
        Seq::empty()
    } else {
        seq![title + number::decimal(names.len()) + "):"@] + text::prefixed(names, "  • "@)
    }
}

/// The list of the authorized users, as lines.
pub open spec fn list_lines(
    owner: Seq<char>,
    global: Seq<Seq<char>>,
    local: Seq<Seq<char>>,
) -> Seq<Seq<char>> {
    seq!["Owner: "@ + owner] + name_block("\n🌍 Global authorized ("@, global) + name_block(
        "\n📍 This community authorized ("@,
        local,
    ) + (if global.len() == 0 && local.len() == 0 {
        seq!["Authorized users: (none)"@]
    } else {
        Seq::empty()
    })
}

fn add_block(lines: &mut Vec<String>, title: &str, names: &Vec<String>)
    ensures
        text::views(final(lines)@) == text::views(old(lines)@) + name_block(
            title@,
            text::views(names@),
        ),
{
    let ghost before = text::views(lines@);
    let ghost all = text::views(names@);
    proof {
        assert(all.len() == names.len());
    }
    if names.len() > 0 {
        let head = text::cat3(title, number::show_size(names.len()).as_str(), "):");
        let ghost first = head@;
        lines.push(head);
        let mut more = text::prefix_all(names, "  • ");
        let ghost rest = text::views(more@);
        lines.append(&mut more);
        proof {
            assert(text::views(lines@) =~= before + (seq![first] + rest));
        }
    } else {
        proof {
            assert(before =~= before + name_block(title@, all));
        }
    }
}

/// Answers `!list`: the owner and the authorized users, each list in increasing order.
pub fn list_command(auth: &AuthManager, community: Option<&str>) -> (r: String)
    ensures
        exists|global: Seq<Seq<char>>, local: Seq<Seq<char>>|
            {
                &&& text::increasing(global) && global.to_set() == auth@.global
                &&& text::increasing(local) && local.to_set() == auth@.local(
                    text::opt_str_view(community),
                )
                &&& r@ == text::joined(
                    #[trigger] list_lines(auth@.owner, global, local),
                    "\n"@,
                )
            },
{
    let (global, local) = auth.list(community);
    let ghost sizes = (text::views(global@), text::views(local@));
    proof {
        assert(sizes.0.len() == global.len());
        assert(sizes.1.len() == local.len());
    }
    let mut lines: Vec<String> = Vec::new();
    let head = text::cat2("Owner: ", auth.owner().as_str());
    let ghost first = head@;
    lines.push(head);
    proof {
        assert(text::views(lines@) =~= seq![first]);
    }
    add_block(&mut lines, "\n🌍 Global authorized (", &global);
    add_block(&mut lines, "\n📍 This community authorized (", &local);
    let ghost before = text::views(lines@);
    if global.len() == 0 && local.len() == 0 {
        lines.push("Authorized users: (none)".to_owned());
        proof {
            assert(text::views(lines@) =~= before + seq!["Authorized users: (none)"@]);
        }
    } else {
        proof {
            assert(text::views(lines@) =~= before + Seq::<Seq<char>>::empty());
        }
    }
    proof {
        assert(text::views(lines@) == list_lines(auth@.owner, sizes.0, sizes.1));
    }
    text::join(&lines, "\n")
}

/// What happens to a channel that is switched on or off.
pub open spec fn switched(
    db: CommunityView,
    channel: Seq<char>,
    on: bool,
    npub: Seq<char>,
    now: i64,
) -> CommunityView {
    if db.enabled(channel) == on {
        db
    } else {
        db.with_channel(channel, ChannelView { enabled: on, updated_at: now, updated_by: npub })
    }
}

/// Answers `!enable`: the bot is switched on in the channel.
pub fn enable_command(db: &mut Database, channel_id: &str, npub: &str, now: i64) -> (r: &'static str)
    ensures
        final(db)@ == switched(old(db)@, channel_id@, true, npub@, now),
        final(db)@.enabled(channel_id@),
        r@ == if old(db)@.enabled(channel_id@) {
            "✅ This channel is already enabled."@
        } else {
            "✅ Bot enabled for this channel. I'm listening!"@
        },
{
    if db.is_channel_enabled(channel_id) {
        "✅ This channel is already enabled."
    } else {
        db.set_channel_enabled(channel_id, true, npub, now);
        "✅ Bot enabled for this channel. I'm listening!"
    }
}

/// Answers `!disable`: the bot is switched off in the channel.
pub fn disable_command(db: &mut Database, channel_id: &str, npub: &str, now: i64) -> (r:
    &'static str)
    ensures
        final(db)@ == switched(old(db)@, channel_id@, false, npub@, now),
        !final(db)@.enabled(channel_id@),
        r@ == if old(db)@.enabled(channel_id@) {
            "🔇 Bot disabled for this channel. I'll stop responding here. Use !enable to turn me back on."@
        } else {
            "🔇 This channel is already disabled."@
        },
{
    if db.is_channel_enabled(channel_id) {
        db.set_channel_enabled(channel_id, false, npub, now);
        "🔇 Bot disabled for this channel. I'll stop responding here. Use !enable to turn me back on."
    } else {
        "🔇 This channel is already disabled."
    }
}

/// Answers `!welcome`: switches welcome messages, or tells whether they are on.
pub fn welcome_command(enabled: &mut bool, args: &str) -> (r: String)
    ensures
        ({
            let arg = text::trimmed(args@);
            &&& *final(enabled) == if arg == "on"@ {
                true
            } else if arg == "off"@ {
                false
            } else {
                *old(enabled)
            }
            &&& r@ == if arg == "on"@ {
                "Welcome messages turned "@ + "ON ✅"@
            } else if arg == "off"@ {
                "Welcome messages turned "@ + "OFF ❌"@
            } else {
                "Welcome messages are currently **"@ + (if *old(enabled) {
                    "on"@
                } else {
                    "off"@
                }) + "**. Usage: !welcome on/off"@
            }
        }),
{
    let arg = text::trim(args);
    if text::same(arg, "on") {
        *enabled = true;
        return text::cat2("Welcome messages turned ", "ON ✅");
    }
    if text::same(arg, "off") {
        *enabled = false;
        return text::cat2("Welcome messages turned ", "OFF ❌");
    }
    let state = if *enabled {
        "on"
    } else {
        "off"
    };
    text::cat3("Welcome messages are currently **", state, "**. Usage: !welcome on/off")
}

} // verus!
