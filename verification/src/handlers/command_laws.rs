//! What holds of the commands as a whole: what each is called, who may give it, and when it is on.

use vstd::prelude::*;
use crate::auth::{AuthLevel, AuthView};
use crate::config::FeaturesSection;
use crate::handlers::commands;
use crate::handlers::commands::{Command, RouteView};
use crate::text;

verus! {

/// What a command is called.
pub open spec fn called(c: Command) -> Seq<char> {
    match c {
        Command::Ping => "!ping"@,
        Command::Repo => "!repo"@,
        Command::Help => "!help"@,
        Command::Echo => "!echo"@,
        Command::Whoami => "!whoami"@,
        Command::Auth => "!auth"@,
        Command::Add => "!add"@,
        Command::Remove => "!remove"@,
        Command::List => "!list"@,
        Command::Enable => "!enable"@,
        Command::Disable => "!disable"@,
        Command::Stats => "!stats"@,
        Command::Price => "!price"@,
        Command::Time => "!time"@,
        Command::Roll => "!roll"@,
        Command::Weather => "!weather"@,
        Command::Remind => "!remind"@,
        Command::Poll => "!poll"@,
        Command::Translate => "!translate"@,
        Command::Define => "!define"@,
        Command::Quote => "!quote"@,
        Command::Joke => "!joke"@,
        Command::Fact => "!fact"@,
        Command::Meme => "!meme"@,
        Command::Shorten => "!shorten"@,
        Command::Delete => "!delete"@,
        Command::Edit => "!edit"@,
        Command::Savefile => "!savefile"@,
        Command::EightBall => "!8ball"@,
        Command::Flip => "!flip"@,
        Command::Choose => "!choose"@,
        Command::Rps => "!rps"@,
        Command::Balance => "!balance"@,
        Command::Tip => "!tip"@,
        Command::Zap => "!zap"@,
        Command::Deposit => "!deposit"@,
        Command::Withdraw => "!withdraw"@,
        Command::Nostr => "!nostr"@,
        Command::Nip05 => "!nip05"@,
        Command::Follow => "!follow"@,
        Command::Kick => "!kick"@,
        Command::Ban => "!ban"@,
        Command::Unban => "!unban"@,
        Command::Warn => "!warn"@,
        Command::Warnings => "!warnings"@,
        Command::Grantmod => "!grantmod"@,
        Command::Revokemod => "!revokemod"@,
        Command::Welcome => "!welcome"@,
        Command::Level => "!level"@,
        Command::Rank => "!rank"@,
        Command::Leaderboard => "!leaderboard"@,
        Command::Profile => "!profile"@,
        Command::Giveaway => "!giveaway"@,
        Command::Rep => "!rep"@,
        Command::Git => "!git"@,
        Command::Community => "!community"@,
        Command::Invite => "!invite"@,
        Command::Join => "!join"@,
        Command::Members => "!members"@,
        Command::Channels => "!channels"@,
        Command::Roles => "!roles"@,
        Command::Caps => "!caps"@,
    }
}

/// A number that tells the names of commands apart.
spec fn mark(s: Seq<char>) -> int {
    s.len() + 16 * (s[1] as int) + 2048 * (s[s.len() - 2] as int) + 262144 * (s.last() as int)
}

#[verifier::rlimit(30)]
proof fn lemma_marks()
    ensures
        mark("!ping"@) == 27227909,
        mark("!repo"@) == 29329189,
        mark("!help"@) == 29582981,
        mark("!echo"@) == 29312597,
        mark("!whoami"@) == 27750263,
        mark("!auth"@) == 27502101,
        mark("!add"@) == 26420756,
        mark("!remove"@) == 26720039,
        mark("!list"@) == 30645957,
        mark("!enable"@) == 26699351,
        mark("!disable"@) == 26699336,
        mark("!stats"@) == 30385974,
        mark("!price"@) == 26681094,
        mark("!time"@) == 26701637,
        mark("!roll"@) == 28534565,
        mark("!weather"@) == 30093176,
        mark("!remind"@) == 26441511,
        mark("!poll"@) == 28534533,
        mark("!translate"@) == 26715978,
        mark("!define"@) == 26703431,
        mark("!quote"@) == 26715926,
        mark("!joke"@) == 26697381,
        mark("!fact"@) == 30613093,
        mark("!meme"@) == 26701525,
        mark("!shorten"@) == 29044536,
        mark("!delete"@) == 26715719,
        mark("!edit"@) == 30625365,
        mark("!savefile"@) == 26699577,
        mark("!8ball"@) == 28533638,
        mark("!flip"@) == 29576805,
        mark("!choose"@) == 26713655,
        mark("!rps"@) == 30377764,
        mark("!balance"@) == 26680872,
        mark("!tip"@) == 29577028,
        mark("!zap"@) == 29560740,
        mark("!deposit"@) == 30625352,
        mark("!withdraw"@) == 31395705,
        mark("!nostr"@) == 30123750,
        mark("!nip05"@) == 13993702,
        mark("!follow"@) == 31424103,
        mark("!kick"@) == 28253877,
        mark("!ban"@) == 29036068,
        mark("!unban"@) == 29036374,
        mark("!warn"@) == 29071221,
        mark("!warnings"@) == 30359417,
        mark("!grantmod"@) == 26443385,
        mark("!revokemod"@) == 26443562,
        mark("!welcome"@) == 26701688,
        mark("!level"@) == 28520134,
        mark("!rank"@) == 28276517,
        mark("!leaderboard"@) == 26449612,
        mark("!profile"@) == 26699528,
        mark("!giveaway"@) == 31919737,
        mark("!rep"@) == 29568804,
        mark("!git"@) == 30625396,
        mark("!community"@) == 31958586,
        mark("!invite"@) == 26715799,
        mark("!join"@) == 29052581,
        mark("!members"@) == 30381784,
        mark("!channels"@) == 30369337,
        mark("!roles"@) == 30355238,
        mark("!caps"@) == 30377525,
{
    reveal_strlit("!ping");
    reveal_strlit("!repo");
    reveal_strlit("!help");
    reveal_strlit("!echo");
    reveal_strlit("!whoami");
    reveal_strlit("!auth");
    reveal_strlit("!add");
    reveal_strlit("!remove");
    reveal_strlit("!list");
    reveal_strlit("!enable");
    reveal_strlit("!disable");
    reveal_strlit("!stats");
    reveal_strlit("!price");
    reveal_strlit("!time");
    reveal_strlit("!roll");
    reveal_strlit("!weather");
    reveal_strlit("!remind");
    reveal_strlit("!poll");
    reveal_strlit("!translate");
    reveal_strlit("!define");
    reveal_strlit("!quote");
    reveal_strlit("!joke");
    reveal_strlit("!fact");
    reveal_strlit("!meme");
    reveal_strlit("!shorten");
    reveal_strlit("!delete");
    reveal_strlit("!edit");
    reveal_strlit("!savefile");
    reveal_strlit("!8ball");
    reveal_strlit("!flip");
    reveal_strlit("!choose");
    reveal_strlit("!rps");
    reveal_strlit("!balance");
    reveal_strlit("!tip");
    reveal_strlit("!zap");
    reveal_strlit("!deposit");
    reveal_strlit("!withdraw");
    reveal_strlit("!nostr");
    reveal_strlit("!nip05");
    reveal_strlit("!follow");
    reveal_strlit("!kick");
    reveal_strlit("!ban");
    reveal_strlit("!unban");
    reveal_strlit("!warn");
    reveal_strlit("!warnings");
    reveal_strlit("!grantmod");
    reveal_strlit("!revokemod");
    reveal_strlit("!welcome");
    reveal_strlit("!level");
    reveal_strlit("!rank");
    reveal_strlit("!leaderboard");
    reveal_strlit("!profile");
    reveal_strlit("!giveaway");
    reveal_strlit("!rep");
    reveal_strlit("!git");
    reveal_strlit("!community");
    reveal_strlit("!invite");
    reveal_strlit("!join");
    reveal_strlit("!members");
    reveal_strlit("!channels");
    reveal_strlit("!roles");
    reveal_strlit("!caps");
}

spec fn in_core(c: Command) -> bool {
    match c {
        Command::Ping => true,
        Command::Repo => true,
        Command::Help => true,
        Command::Echo => true,
        Command::Whoami => true,
        Command::Auth => true,
        Command::Add => true,
        Command::Remove => true,
        Command::List => true,
        Command::Enable => true,
        Command::Disable => true,
        _ => false,
    }
}

spec fn in_utility(c: Command) -> bool {
    match c {
        Command::Stats => true,
        Command::Price => true,
        Command::Time => true,
        Command::Roll => true,
        Command::Weather => true,
        Command::Remind => true,
        Command::Poll => true,
        Command::Translate => true,
        Command::Define => true,
        Command::Quote => true,
        Command::Joke => true,
        Command::Fact => true,
        Command::Meme => true,
        Command::Shorten => true,
        Command::Delete => true,
        Command::Edit => true,
        Command::Savefile => true,
        Command::EightBall => true,
        Command::Flip => true,
        Command::Choose => true,
        Command::Rps => true,
        _ => false,
    }
}

spec fn in_nostr(c: Command) -> bool {
    match c {
        Command::Balance => true,
        Command::Tip => true,
        Command::Zap => true,
        Command::Deposit => true,
        Command::Withdraw => true,
        Command::Nostr => true,
        Command::Nip05 => true,
        Command::Follow => true,
        Command::Kick => true,
        Command::Ban => true,
        Command::Unban => true,
        Command::Warn => true,
        Command::Warnings => true,
        Command::Grantmod => true,
        Command::Revokemod => true,
        _ => false,
    }
}

spec fn in_community(c: Command) -> bool {
    match c {
        Command::Welcome => true,
        Command::Level => true,
        Command::Rank => true,
        Command::Leaderboard => true,
        Command::Profile => true,
        Command::Giveaway => true,
        Command::Rep => true,
        Command::Git => true,
        Command::Community => true,
        Command::Invite => true,
        Command::Join => true,
        Command::Members => true,
        Command::Channels => true,
        Command::Roles => true,
        Command::Caps => true,
        _ => false,
    }
}

proof fn lemma_core_called(c: Command)
    ensures
        in_core(c) ==> commands::core_named(called(c)) == Some(c),
{
    lemma_marks();
}

proof fn lemma_utility_called(c: Command)
    ensures
        in_utility(c) ==> commands::core_named(called(c)) is None,
        in_utility(c) ==> commands::utility_named(called(c)) == Some(c),
{
    lemma_marks();
}

proof fn lemma_nostr_called(c: Command)
    ensures
        in_nostr(c) ==> commands::core_named(called(c)) is None,
        in_nostr(c) ==> commands::utility_named(called(c)) is None,
        in_nostr(c) ==> commands::nostr_named(called(c)) == Some(c),
{
    lemma_marks();
}

proof fn lemma_community_called(c: Command)
    ensures
        in_community(c) ==> commands::core_named(called(c)) is None,
        in_community(c) ==> commands::utility_named(called(c)) is None,
        in_community(c) ==> commands::nostr_named(called(c)) is None,
        in_community(c) ==> commands::community_named(called(c)) == Some(c),
{
    lemma_marks();
}

/// Each command answers to its name, and to nothing else.
pub proof fn law_names_of_commands(c: Command, word: Seq<char>)
    ensures
        commands::command_named(called(c)) == Some(c),
        commands::command_named(word) == Some(c) ==> word == called(c),
{
    lemma_core_called(c);
    lemma_utility_called(c);
    lemma_nostr_called(c);
    lemma_community_called(c);
}

/// The commands that the owner alone may give.
pub open spec fn for_the_owner(word: Seq<char>) -> bool {
    ||| word == "!add"@
    ||| word == "!remove"@
    ||| word == "!list"@
    ||| word == "!enable"@
    ||| word == "!disable"@
    ||| word == "!follow"@
    ||| word == "!ban"@
    ||| word == "!unban"@
    ||| word == "!grantmod"@
    ||| word == "!revokemod"@
    ||| word == "!welcome"@
    ||| word == "!join"@
}

/// The commands that the owner and authorized users may give.
pub open spec fn for_authorized(word: Seq<char>) -> bool {
    ||| word == "!tip"@
    ||| word == "!zap"@
    ||| word == "!deposit"@
    ||| word == "!withdraw"@
    ||| word == "!kick"@
    ||| word == "!warn"@
    ||| word == "!warnings"@
    ||| word == "!giveaway"@
}

/// The commands that anyone may give.
pub open spec fn for_everyone(word: Seq<char>) -> bool {
    ||| word == "!ping"@
    ||| word == "!repo"@
    ||| word == "!help"@
    ||| word == "!echo"@
    ||| word == "!whoami"@
    ||| word == "!auth"@
    ||| word == "!stats"@
    ||| word == "!price"@
    ||| word == "!time"@
    ||| word == "!roll"@
    ||| word == "!weather"@
    ||| word == "!remind"@
    ||| word == "!poll"@
    ||| word == "!translate"@
    ||| word == "!define"@
    ||| word == "!quote"@
    ||| word == "!joke"@
    ||| word == "!fact"@
    ||| word == "!meme"@
    ||| word == "!shorten"@
    ||| word == "!delete"@
    ||| word == "!edit"@
    ||| word == "!savefile"@
    ||| word == "!8ball"@
    ||| word == "!flip"@
    ||| word == "!choose"@
    ||| word == "!rps"@
    ||| word == "!balance"@
    ||| word == "!nostr"@
    ||| word == "!nip05"@
    ||| word == "!level"@
    ||| word == "!rank"@
    ||| word == "!leaderboard"@
    ||| word == "!profile"@
    ||| word == "!rep"@
    ||| word == "!community"@
    ||| word == "!invite"@
    ||| word == "!members"@
    ||| word == "!channels"@
    ||| word == "!roles"@
    ||| word == "!caps"@
}

/// Whether the group that a command belongs to is on. The first ones belong to none.
pub open spec fn is_on(features: FeaturesSection, word: Seq<char>) -> bool {
    ||| (word == "!ping"@ || word == "!repo"@ || word == "!help"@ || word == "!echo"@ || word == "!whoami"@ || word == "!auth"@ || word == "!add"@ || word == "!remove"@ || word == "!list"@ || word == "!enable"@ || word == "!disable"@)
    ||| features.utility && (word == "!stats"@ || word == "!price"@ || word == "!time"@ || word == "!roll"@ || word == "!weather"@ || word == "!remind"@ || word == "!poll"@ || word == "!translate"@ || word == "!define"@ || word == "!quote"@ || word == "!joke"@ || word == "!fact"@ || word == "!meme"@ || word == "!shorten"@ || word == "!delete"@ || word == "!edit"@ || word == "!savefile"@)
    ||| features.fun && (word == "!8ball"@ || word == "!flip"@ || word == "!choose"@ || word == "!rps"@)
    ||| features.nostr && (word == "!balance"@ || word == "!tip"@ || word == "!zap"@ || word == "!deposit"@ || word == "!withdraw"@ || word == "!nostr"@ || word == "!nip05"@ || word == "!follow"@)
    ||| features.moderation && (word == "!kick"@ || word == "!ban"@ || word == "!unban"@ || word == "!warn"@ || word == "!warnings"@ || word == "!grantmod"@ || word == "!revokemod"@)
    ||| features.community && (word == "!welcome"@ || word == "!level"@ || word == "!rank"@ || word == "!leaderboard"@ || word == "!profile"@ || word == "!giveaway"@ || word == "!rep"@ || word == "!community"@ || word == "!invite"@ || word == "!join"@ || word == "!members"@ || word == "!channels"@ || word == "!roles"@ || word == "!caps"@)
    ||| features.git_monitor && (word == "!git"@)
}

/// Whether a user is authorized somewhere, or the owner.
pub open spec fn is_authorized(
    auth: AuthView,
    npub: Seq<char>,
    community: Option<Seq<char>>,
) -> bool {
    ||| npub == auth.owner
    ||| auth.global.contains(npub)
    ||| community is Some && auth.communities.dom().contains(community->0)
        && auth.communities[community->0].contains(npub)
}

proof fn lemma_word_of(word: Seq<char>) -> (c: Command)
    requires
        commands::command_named(word) is Some,
    ensures
        commands::command_named(word) == Some(c),
        word == called(c),
{
    let c = commands::command_named(word)->0;
    law_names_of_commands(c, word);
    c
}

/// A command for the owner is carried out for the owner, and refused to everyone else in words that
/// say so, wherever its group is on.
pub proof fn law_owner_commands(
    features: FeaturesSection,
    auth: AuthView,
    npub: Seq<char>,
    community: Option<Seq<char>>,
    word: Seq<char>,
    args: Seq<char>,
)
    requires
        for_the_owner(word),
        is_on(features, word),
    ensures
        ({
            let done = commands::dispatched(features, Some(auth), npub, community, word, args);
            &&& npub == auth.owner ==> done is Run && called(done->Run_0) == word && done->Run_1
                == args
            &&& npub != auth.owner ==> done == RouteView::Reply("⛔ Owner only."@)
        }),
{
    lemma_levels(features, auth, npub, community, word, args);
}

/// A command for authorized users is carried out for them and for the owner, and refused to
/// everyone else in words that say how to be authorized, wherever its group is on.
pub proof fn law_authorized_commands(
    features: FeaturesSection,
    auth: AuthView,
    npub: Seq<char>,
    community: Option<Seq<char>>,
    word: Seq<char>,
    args: Seq<char>,
)
    requires
        for_authorized(word),
        is_on(features, word),
    ensures
        ({
            let done = commands::dispatched(features, Some(auth), npub, community, word, args);
            &&& is_authorized(auth, npub, community) ==> done is Run && called(done->Run_0) == word
                && done->Run_1 == args
            &&& !is_authorized(auth, npub, community) ==> done == RouteView::Reply(
                "⛔ Not authorized. Ask the owner to run !add <your-npub>"@,
            )
        }),
{
    lemma_levels(features, auth, npub, community, word, args);
}

/// A command for everyone is carried out for everyone, wherever its group is on.
pub proof fn law_public_commands(
    features: FeaturesSection,
    auth: Option<AuthView>,
    npub: Seq<char>,
    community: Option<Seq<char>>,
    word: Seq<char>,
    args: Seq<char>,
)
    requires
        for_everyone(word),
        is_on(features, word),
    ensures
        ({
            let done = commands::dispatched(features, auth, npub, community, word, args);
            done is Run && called(done->Run_0) == word && done->Run_1 == args
        }),
{
    lemma_named(word);
    let c = lemma_word_of(word);
    lemma_group(features, c);
    lemma_level_of(c, args);
}

/// Of `!git`, adding and removing is for authorized users, polling for the owner, and everything
/// else for everyone.
pub proof fn law_git_commands(
    features: FeaturesSection,
    auth: AuthView,
    npub: Seq<char>,
    community: Option<Seq<char>>,
    args: Seq<char>,
)
    requires
        features.git_monitor,
    ensures
        ({
            let done = commands::dispatched(
                features,
                Some(auth),
                npub,
                community,
                "!git"@,
                args,
            );
            let verb = text::head_word(text::trimmed(args));
            let changes = verb == "add"@ || verb == "remove"@ || verb == "rm"@ || verb == "delete"@;
            let polls = verb == "poll"@;
            &&& done == RouteView::Run(Command::Git, args) <==> if changes {
                is_authorized(auth, npub, community)
            } else if polls {
                npub == auth.owner
            } else {
                true
            }
            &&& !(done is Run) ==> done is Reply
        }),
{
    law_names_of_commands(Command::Git, "!git"@);
}

/// A command whose group is off is ignored, and so is what is no command.
pub proof fn law_switched_off_commands(
    features: FeaturesSection,
    auth: Option<AuthView>,
    npub: Seq<char>,
    community: Option<Seq<char>>,
    word: Seq<char>,
    args: Seq<char>,
)
    requires
        !is_on(features, word),
    ensures
        commands::dispatched(features, auth, npub, community, word, args) == RouteView::Ignore,
{
    if commands::command_named(word) is Some {
        let c = lemma_word_of(word);
        lemma_group(features, c);
    }
}

/// Where the bot is switched off in a channel, every command is ignored but those that switch it on
/// and off; where it is switched on, or that is unknown, none is.
pub proof fn law_silenced_channels(enabled: Option<bool>, word: Seq<char>)
    ensures
        commands::silenced(Some(true), word) == false,
        commands::silenced(None, word) == false,
        commands::silenced(Some(false), word) <==> word != "!enable"@ && word != "!disable"@,
{
}

/// The word of a message is what stands before its first space, and its arguments are all that
/// stands behind it.
pub proof fn law_message_is_cut_once(word: Seq<char>, args: Seq<char>)
    requires
        !word.contains(' '),
    ensures
        commands::command_word(word.push(' ') + args) == word,
        commands::command_args(word.push(' ') + args) == args,
        commands::command_word(word) == word,
        commands::command_args(word).len() == 0,
{
    let all = word.push(' ') + args;
    assert forall|j: int| 0 <= j < word.len() implies all[j] != ' ' by {
        assert(all[j] == word[j]);
    }
    text::lemma_first_of(all, ' ', word.len() as int);
    assert(all.take(word.len() as int) =~= word);
    assert(all.skip(word.len() as int + 1) =~= args);
    text::lemma_first_of_bounds(word, ' ');
    assert(word.take(word.len() as int) =~= word);
    reveal_strlit("");
}

proof fn lemma_levels(
    features: FeaturesSection,
    auth: AuthView,
    npub: Seq<char>,
    community: Option<Seq<char>>,
    word: Seq<char>,
    args: Seq<char>,
)
    requires
        for_the_owner(word) || for_authorized(word),
        is_on(features, word),
    ensures
        ({
            let done = commands::dispatched(features, Some(auth), npub, community, word, args);
            let may = if for_the_owner(word) {
                npub == auth.owner
            } else {
                is_authorized(auth, npub, community)
            };
            &&& !(for_the_owner(word) && for_authorized(word))
            &&& may ==> done is Run && called(done->Run_0) == word && done->Run_1 == args
            &&& !may ==> done == RouteView::Reply(
                if for_the_owner(word) {
                    "⛔ Owner only."@
                } else {
                    "⛔ Not authorized. Ask the owner to run !add <your-npub>"@
                },
            )
        }),
{
    lemma_named(word);
    let c = lemma_word_of(word);
    lemma_group(features, c);
    lemma_level_of(c, args);
}

proof fn lemma_named(word: Seq<char>)
    ensures
        for_the_owner(word) || for_authorized(word) || for_everyone(word) ==> commands::command_named(
            word,
        ) is Some,
{
}

proof fn lemma_same_name(c: Command, d: Command)
    ensures
        called(c) == called(d) ==> c == d,
{
    law_names_of_commands(c, called(c));
    law_names_of_commands(d, called(d));
}

#[verifier::rlimit(30)]
proof fn lemma_group(features: FeaturesSection, c: Command)
    ensures
        is_on(features, called(c)) <==> (c.feature() is None || features.flag(c.feature()->0)),
{
    assert forall|d: Command| #[trigger] called(d) == called(c) implies d == c by {
        lemma_same_name(c, d);
    }
    assert(called(Command::Ping) == "!ping"@);
    assert(called(Command::Repo) == "!repo"@);
    assert(called(Command::Help) == "!help"@);
    assert(called(Command::Echo) == "!echo"@);
    assert(called(Command::Whoami) == "!whoami"@);
    assert(called(Command::Auth) == "!auth"@);
    assert(called(Command::Add) == "!add"@);
    assert(called(Command::Remove) == "!remove"@);
    assert(called(Command::List) == "!list"@);
    assert(called(Command::Enable) == "!enable"@);
    assert(called(Command::Disable) == "!disable"@);
    assert(called(Command::Stats) == "!stats"@);
    assert(called(Command::Price) == "!price"@);
    assert(called(Command::Time) == "!time"@);
    assert(called(Command::Roll) == "!roll"@);
    assert(called(Command::Weather) == "!weather"@);
    assert(called(Command::Remind) == "!remind"@);
    assert(called(Command::Poll) == "!poll"@);
    assert(called(Command::Translate) == "!translate"@);
    assert(called(Command::Define) == "!define"@);
    assert(called(Command::Quote) == "!quote"@);
    assert(called(Command::Joke) == "!joke"@);
    assert(called(Command::Fact) == "!fact"@);
    assert(called(Command::Meme) == "!meme"@);
    assert(called(Command::Shorten) == "!shorten"@);
    assert(called(Command::Delete) == "!delete"@);
    assert(called(Command::Edit) == "!edit"@);
    assert(called(Command::Savefile) == "!savefile"@);
    assert(called(Command::EightBall) == "!8ball"@);
    assert(called(Command::Flip) == "!flip"@);
    assert(called(Command::Choose) == "!choose"@);
    assert(called(Command::Rps) == "!rps"@);
    assert(called(Command::Balance) == "!balance"@);
    assert(called(Command::Tip) == "!tip"@);
    assert(called(Command::Zap) == "!zap"@);
    assert(called(Command::Deposit) == "!deposit"@);
    assert(called(Command::Withdraw) == "!withdraw"@);
    assert(called(Command::Nostr) == "!nostr"@);
    assert(called(Command::Nip05) == "!nip05"@);
    assert(called(Command::Follow) == "!follow"@);
    assert(called(Command::Kick) == "!kick"@);
    assert(called(Command::Ban) == "!ban"@);
    assert(called(Command::Unban) == "!unban"@);
    assert(called(Command::Warn) == "!warn"@);
    assert(called(Command::Warnings) == "!warnings"@);
    assert(called(Command::Grantmod) == "!grantmod"@);
    assert(called(Command::Revokemod) == "!revokemod"@);
    assert(called(Command::Welcome) == "!welcome"@);
    assert(called(Command::Level) == "!level"@);
    assert(called(Command::Rank) == "!rank"@);
    assert(called(Command::Leaderboard) == "!leaderboard"@);
    assert(called(Command::Profile) == "!profile"@);
    assert(called(Command::Giveaway) == "!giveaway"@);
    assert(called(Command::Rep) == "!rep"@);
    assert(called(Command::Git) == "!git"@);
    assert(called(Command::Community) == "!community"@);
    assert(called(Command::Invite) == "!invite"@);
    assert(called(Command::Join) == "!join"@);
    assert(called(Command::Members) == "!members"@);
    assert(called(Command::Channels) == "!channels"@);
    assert(called(Command::Roles) == "!roles"@);
    assert(called(Command::Caps) == "!caps"@);
}

#[verifier::rlimit(30)]
proof fn lemma_level_of(c: Command, args: Seq<char>)
    ensures
        for_the_owner(called(c)) ==> c.level(args) == AuthLevel::Owner,
        for_authorized(called(c)) ==> c.level(args) == AuthLevel::Authorized,
        for_everyone(called(c)) ==> c.level(args) == AuthLevel::Public,
        !(for_the_owner(called(c)) && for_authorized(called(c))),
{
    assert forall|d: Command| #[trigger] called(d) == called(c) implies d == c by {
        lemma_same_name(c, d);
    }
    assert(called(Command::Ping) == "!ping"@);
    assert(called(Command::Repo) == "!repo"@);
    assert(called(Command::Help) == "!help"@);
    assert(called(Command::Echo) == "!echo"@);
    assert(called(Command::Whoami) == "!whoami"@);
    assert(called(Command::Auth) == "!auth"@);
    assert(called(Command::Add) == "!add"@);
    assert(called(Command::Remove) == "!remove"@);
    assert(called(Command::List) == "!list"@);
    assert(called(Command::Enable) == "!enable"@);
    assert(called(Command::Disable) == "!disable"@);
    assert(called(Command::Stats) == "!stats"@);
    assert(called(Command::Price) == "!price"@);
    assert(called(Command::Time) == "!time"@);
    assert(called(Command::Roll) == "!roll"@);
    assert(called(Command::Weather) == "!weather"@);
    assert(called(Command::Remind) == "!remind"@);
    assert(called(Command::Poll) == "!poll"@);
    assert(called(Command::Translate) == "!translate"@);
    assert(called(Command::Define) == "!define"@);
    assert(called(Command::Quote) == "!quote"@);
    assert(called(Command::Joke) == "!joke"@);
    assert(called(Command::Fact) == "!fact"@);
    assert(called(Command::Meme) == "!meme"@);
    assert(called(Command::Shorten) == "!shorten"@);
    assert(called(Command::Delete) == "!delete"@);
    assert(called(Command::Edit) == "!edit"@);
    assert(called(Command::Savefile) == "!savefile"@);
    assert(called(Command::EightBall) == "!8ball"@);
    assert(called(Command::Flip) == "!flip"@);
    assert(called(Command::Choose) == "!choose"@);
    assert(called(Command::Rps) == "!rps"@);
    assert(called(Command::Balance) == "!balance"@);
    assert(called(Command::Tip) == "!tip"@);
    assert(called(Command::Zap) == "!zap"@);
    assert(called(Command::Deposit) == "!deposit"@);
    assert(called(Command::Withdraw) == "!withdraw"@);
    assert(called(Command::Nostr) == "!nostr"@);
    assert(called(Command::Nip05) == "!nip05"@);
    assert(called(Command::Follow) == "!follow"@);
    assert(called(Command::Kick) == "!kick"@);
    assert(called(Command::Ban) == "!ban"@);
    assert(called(Command::Unban) == "!unban"@);
    assert(called(Command::Warn) == "!warn"@);
    assert(called(Command::Warnings) == "!warnings"@);
    assert(called(Command::Grantmod) == "!grantmod"@);
    assert(called(Command::Revokemod) == "!revokemod"@);
    assert(called(Command::Welcome) == "!welcome"@);
    assert(called(Command::Level) == "!level"@);
    assert(called(Command::Rank) == "!rank"@);
    assert(called(Command::Leaderboard) == "!leaderboard"@);
    assert(called(Command::Profile) == "!profile"@);
    assert(called(Command::Giveaway) == "!giveaway"@);
    assert(called(Command::Rep) == "!rep"@);
    assert(called(Command::Git) == "!git"@);
    assert(called(Command::Community) == "!community"@);
    assert(called(Command::Invite) == "!invite"@);
    assert(called(Command::Join) == "!join"@);
    assert(called(Command::Members) == "!members"@);
    assert(called(Command::Channels) == "!channels"@);
    assert(called(Command::Roles) == "!roles"@);
    assert(called(Command::Caps) == "!caps"@);
}

} // verus!
