//! Games.

use vstd::prelude::*;
use crate::{chance, text};

verus! {

// ---------------------------------------------------------------------------
// !8ball
// ---------------------------------------------------------------------------

/// The answers of the magic ball: ten of yes, five of maybe, five of no.
pub open spec fn ball_answers() -> Seq<Seq<char>> {
    Seq::empty().push(
        "It is certain."@,
    ).push(
        "It is decidedly so."@,
    ).push(
        "Without a doubt."@,
    ).push(
        "Yes definitely."@,
    ).push(
        "You may rely on it."@,
    ).push(
        "As I see it, yes."@,
    ).push(
        "Most likely."@,
    ).push(
        "Outlook good."@,
    ).push(
        "Yes."@,
    ).push(
        "Signs point to yes."@,
    ).push(
        "Reply hazy, try again."@,
    ).push(
        "Ask again later."@,
    ).push(
        "Better not tell you now."@,
    ).push(
        "Cannot predict now."@,
    ).push(
        "Concentrate and ask again."@,
    ).push(
        "Don't count on it."@,
    ).push(
        "My reply is no."@,
    ).push(
        "My sources say no."@,
    ).push(
        "Outlook not so good."@,
    ).push(
        "Very doubtful."@,
    )
}

fn push_answer(list: &mut Vec<String>, s: &str)
    ensures
        text::views(final(list)@) == text::views(old(list)@).push(s@),
{
    let ghost before = text::views(list@);
    list.push(s.to_owned());
    proof {
        assert(text::views(list@) =~= before.push(s@));
    }
}

/// The answers of the magic ball.
pub fn eight_ball_responses() -> (r: Vec<String>)
    ensures
        text::views(r@) == ball_answers(),
        r@.len() == 20,
{
    let mut list: Vec<String> = Vec::new();
    proof {
        assert(text::views(list@) =~= Seq::empty());
    }
    push_answer(&mut list, "It is certain.");
    push_answer(&mut list, "It is decidedly so.");
    push_answer(&mut list, "Without a doubt.");
    push_answer(&mut list, "Yes definitely.");
    push_answer(&mut list, "You may rely on it.");
    push_answer(&mut list, "As I see it, yes.");
    push_answer(&mut list, "Most likely.");
    push_answer(&mut list, "Outlook good.");
    push_answer(&mut list, "Yes.");
    push_answer(&mut list, "Signs point to yes.");
    push_answer(&mut list, "Reply hazy, try again.");
    push_answer(&mut list, "Ask again later.");
    push_answer(&mut list, "Better not tell you now.");
    push_answer(&mut list, "Cannot predict now.");
    push_answer(&mut list, "Concentrate and ask again.");
    push_answer(&mut list, "Don't count on it.");
    push_answer(&mut list, "My reply is no.");
    push_answer(&mut list, "My sources say no.");
    push_answer(&mut list, "Outlook not so good.");
    push_answer(&mut list, "Very doubtful.");
    let ghost all = text::views(list@);
    proof {
        assert(all.len() == list.len());
    }
    list
}

/// Answers `!8ball`: one of the answers, by chance.
pub fn eight_ball_command(args: &str) -> (r: String)
    ensures
        if text::trimmed(args@).len() == 0 {
            r@ == "🎱 Usage: !8ball <question>"@
        } else {
            exists|answer: Seq<char>| #[trigger]
                ball_answers().contains(answer) && r@ == "🎱 "@ + answer
        },
{
    if text::trim(args).is_empty() {
        return "🎱 Usage: !8ball <question>".to_owned();
    }
    let answers = eight_ball_responses();
    match chance::pick_one(&answers) {
        Some(a) => text::cat2("🎱 ", a.as_str()),
        None => text::cat2("🎱 ", "Maybe."),
    }
}

// ---------------------------------------------------------------------------
// !flip
// ---------------------------------------------------------------------------

/// What is said of a coin.
pub fn flip_reply(heads: bool) -> (r: &'static str)
    ensures
        r@ == if heads {
            "🪙 Heads!"@
        } else {
            "🪙 Tails!"@
        },
{
    if heads {
        "🪙 Heads!"
    } else {
        "🪙 Tails!"
    }
}

/// Answers `!flip`.
pub fn flip_command() -> (r: &'static str)
    ensures
        r@ == "🪙 Heads!"@ || r@ == "🪙 Tails!"@,
{
    flip_reply(chance::flip())
}

// ---------------------------------------------------------------------------
// !choose
// ---------------------------------------------------------------------------

/// The options that `!choose` is given.
pub open spec fn options_of(args: Seq<char>) -> Seq<Seq<char>> {
    text::nonblank(text::pieces(text::trimmed(args), '|'))
}

/// Why nothing is chosen, if nothing is.
pub open spec fn choice_refusal(args: Seq<char>) -> Option<Seq<char>> {
    if text::trimmed(args).len() == 0 {
        Some(
            "Usage: !choose <option1 | option2 | option3>\nExample: !choose pizza | tacos | sushi"@,
        )
    } else if options_of(args).len() < 2 {
        Some("⚠️ Give me at least 2 options separated by |"@)
    } else {
        None
    }
}

/// The options that `!choose` is given, or what to tell the user.
pub fn parse_options(args: &str) -> (r: Result<Vec<String>, String>)
    ensures
        match r {
            Ok(options) => choice_refusal(args@) is None && text::views(options@) == options_of(
                args@,
            ),
            Err(why) => choice_refusal(args@) == Some(why@),
        },
{
    let a = text::trim(args);
    if a.is_empty() {
        return Err(
            "Usage: !choose <option1 | option2 | option3>\nExample: !choose pizza | tacos | sushi".to_owned(),
        );
    }
    let options = text::keep_nonblank(&text::split_char(a, '|'));
    let ghost all = text::views(options@);
    proof {
        assert(all.len() == options.len());
    }
    if options.len() < 2 {
        return Err("⚠️ Give me at least 2 options separated by |".to_owned());
    }
    Ok(options)
}

/// What is said of a choice.
pub fn choice_reply(choice: &str) -> (r: String)
    ensures
        r@ == "🤔 I choose: **"@ + choice@ + "**"@,
{
    text::cat3("🤔 I choose: **", choice, "**")
}

/// Answers `!choose`: one of the options, by chance.
pub fn choose_command(args: &str) -> (r: String)
    ensures
        match choice_refusal(args@) {
            Some(why) => r@ == why,
            None => exists|choice: Seq<char>| #[trigger]
                options_of(args@).contains(choice) && r@ == "🤔 I choose: **"@ + choice + "**"@,
        },
{
    match parse_options(args) {
        Err(why) => why,
        Ok(options) => match chance::pick_one(&options) {
            Some(c) => choice_reply(c.as_str()),
            None => {
                proof {
                    assert(text::views(options@).len() == 0);
                }
                choice_reply("???")
            },
        },
    }
}

// ---------------------------------------------------------------------------
// !rps
// ---------------------------------------------------------------------------

/// How a round ended for the player.
#[derive(Debug, Clone, Copy, PartialEq, Eq, Structural)]
pub enum RpsResult {
    Win,
    Lose,
    Tie,
}

/// Whether one hand beats another.
pub open spec fn beats(a: Seq<char>, b: Seq<char>) -> bool {
    ||| a == "rock"@ && b == "scissors"@
    ||| a == "paper"@ && b == "rock"@
    ||| a == "scissors"@ && b == "paper"@
}

/// How a round ends for the player.
pub open spec fn rps_result(player: Seq<char>, bot: Seq<char>) -> RpsResult {
    if player == bot {
        RpsResult::Tie
    } else if beats(player, bot) {
        RpsResult::Win
    } else {
        RpsResult::Lose
    }
}

/// Decides a round.
pub fn determine_rps_winner(player: &str, bot: &str) -> (r: RpsResult)
    ensures
        r == rps_result(player@, bot@),
{
    if text::same(player, bot) {
        return RpsResult::Tie;
    }
    if (text::same(player, "rock") && text::same(bot, "scissors")) || (text::same(player, "paper")
        && text::same(bot, "rock")) || (text::same(player, "scissors") && text::same(
        bot,
        "paper",
    )) {
        RpsResult::Win
    } else {
        RpsResult::Lose
    }
}

/// Whether a word is one of the three hands.
pub open spec fn is_hand(s: Seq<char>) -> bool {
    s == "rock"@ || s == "paper"@ || s == "scissors"@
}

/// What one player wins the other loses.
pub proof fn law_rps_is_fair(a: Seq<char>, b: Seq<char>)
    requires
        is_hand(a),
        is_hand(b),
    ensures
        rps_result(a, b) == RpsResult::Win <==> rps_result(b, a) == RpsResult::Lose,
        rps_result(a, b) == RpsResult::Tie <==> rps_result(b, a) == RpsResult::Tie,
{
    reveal_strlit("rock");
    reveal_strlit("paper");
    reveal_strlit("scissors");
    assert("rock"@.len() != "paper"@.len());
    assert("rock"@.len() != "scissors"@.len());
    assert("paper"@.len() != "scissors"@.len());
}

/// The hand that a word stands for.
pub open spec fn hand_of(args: Seq<char>) -> Option<Seq<char>> {
    let s = text::str_lowercase(text::trimmed(args));
    if s == "rock"@ || s == "r"@ {
        Some("rock"@)
    } else if s == "paper"@ || s == "p"@ {
        Some("paper"@)
    } else if s == "scissors"@ || s == "s"@ {
        Some("scissors"@)
    } else {
        None
    }
}

/// Reads a hand.
pub fn parse_hand(args: &str) -> (r: Option<&'static str>)
    ensures
        text::opt_str_view(r) == hand_of(args@),
{
    let low = text::to_lowercase(text::trim(args));
    let s = low.as_str();
    if text::same(s, "rock") || text::same(s, "r") {
        Some("rock")
    } else if text::same(s, "paper") || text::same(s, "p") {
        Some("paper")
    } else if text::same(s, "scissors") || text::same(s, "s") {
        Some("scissors")
    } else {
        None
    }
}

/// The sign for a hand.
pub open spec fn hand_sign(hand: Seq<char>) -> Seq<char> {
    if hand == "rock"@ {
        "🪨"@
    } else if hand == "paper"@ {
        "📄"@
    } else if hand == "scissors"@ {
        "✂️"@
    } else {
        "❓"@
    }
}

fn sign_of(hand: &str) -> (r: &'static str)
    ensures
        r@ == hand_sign(hand@),
{
    if text::same(hand, "rock") {
        "🪨"
    } else if text::same(hand, "paper") {
        "📄"
    } else if text::same(hand, "scissors") {
        "✂️"
    } else {
        "❓"
    }
}

/// What is said of a round.
pub open spec fn round_text(player: Seq<char>, bot: Seq<char>) -> Seq<char> {
    hand_sign(player) + " vs "@ + hand_sign(bot) + (match rps_result(player, bot) {
        RpsResult::Win => "\n🎉 You win!"@,
        RpsResult::Lose => "\n💀 I win!"@,
        RpsResult::Tie => "\n🤝 It's a tie!"@,
    })
}

/// Tells how a round ended.
pub fn round_reply(player: &str, bot: &str) -> (r: String)
    ensures
        r@ == round_text(player@, bot@),
{
    let outcome = match determine_rps_winner(player, bot) {
        RpsResult::Win => "\n🎉 You win!",
        RpsResult::Lose => "\n💀 I win!",
        RpsResult::Tie => "\n🤝 It's a tie!",
    };
    text::cat4(sign_of(player), " vs ", sign_of(bot), outcome)
}

/// Answers `!rps`: the bot's hand is left to chance.
pub fn rps_command(args: &str) -> (r: String)
    ensures
        match hand_of(args@) {
            None => r@ == "Usage: !rps <rock|paper|scissors>\nYou can also use: r, p, s"@,
            Some(player) => exists|bot: Seq<char>| #[trigger]
                is_hand(bot) && r@ == round_text(player, bot),
        },
{
    match parse_hand(args) {
        None => "Usage: !rps <rock|paper|scissors>\nYou can also use: r, p, s".to_owned(),
        Some(player) => {
            let mut hands: Vec<String> = Vec::new();
            proof {
                assert(text::views(hands@) =~= Seq::empty());
            }
            push_answer(&mut hands, "rock");
            push_answer(&mut hands, "paper");
            push_answer(&mut hands, "scissors");
            match chance::pick_one(&hands) {
                Some(bot) => {
                    proof {
                        assert(is_hand(bot@));
                    }
                    round_reply(player, bot.as_str())
                },
                None => {
                    proof {
                        assert(is_hand("rock"@));
                    }
                    round_reply(player, "rock")
                },
            }
        },
    }
}

} // verus!
