//! What holds of the utility and fun commands as a whole.

use vstd::prelude::*;
use crate::handlers::fun;
use crate::handlers::fun::RpsResult;
use crate::handlers::utility;
use crate::json::JsonView;
use crate::{number, text};

verus! {

// ---------------------------------------------------------------------------
// Numbers
// ---------------------------------------------------------------------------

proof fn lemma_grouped_alike(a: Seq<char>, b: Seq<char>, count: int)
    requires
        0 <= count <= a.len(),
        b.len() == 3,
    ensures
        utility::grouped(a + b, count) == utility::grouped(a, count),
    decreases count,
{
    if count > 0 {
        lemma_grouped_alike(a, b, count - 1);
        assert((a + b)[count - 1] == a[count - 1]);
        assert(((a + b).len() - (count - 1)) % 3 == (a.len() - (count - 1)) % 3);
    }
}

/// Up to three digits are shown as they are, and the last three of more stand behind a comma.
pub proof fn law_thousands_are_grouped(a: Seq<char>, b: Seq<char>)
    ensures
        a.len() <= 3 ==> utility::grouped(a, a.len() as int) == a,
        a.len() > 0 && b.len() == 3 ==> utility::grouped(a + b, (a + b).len() as int)
            == utility::grouped(a, a.len() as int).push(',') + b,
{
    reveal_with_fuel(utility::grouped, 4);
    if a.len() <= 3 {
        assert(utility::grouped(a, a.len() as int) =~= a);
    }
    if a.len() > 0 && b.len() == 3 {
        let s = a + b;
        let n = a.len() as int;
        lemma_grouped_alike(a, b, n);
        let g = utility::grouped(a, n);
        assert(s[n] == b[0] && s[n + 1] == b[1] && s[n + 2] == b[2]);
        assert(utility::grouped(s, n + 1) == g.push(',').push(b[0]));
        assert(utility::grouped(s, n + 2) == g.push(',').push(b[0]).push(b[1]));
        assert(utility::grouped(s, n + 3) == g.push(',').push(b[0]).push(b[1]).push(b[2]));
        assert(utility::grouped(s, n + 3) =~= g.push(',') + b);
    }
}

/// The time since the start is told in days, hours, minutes and seconds; the seconds are left out
/// from a day on, and what comes before the largest unit is left out too.
pub proof fn law_uptime_is_told(d: nat, h: nat, m: nat, s: nat)
    requires
        d * 86400 + h * 3600 + m * 60 + s <= u64::MAX,
        h < 24,
        m < 60,
        s < 60,
    ensures
        utility::uptime_text((d * 86400 + h * 3600 + m * 60 + s) as u64) == if d > 0 {
            number::decimal(d) + "d "@ + number::decimal(h) + "h "@ + number::decimal(m) + "m"@
        } else if h > 0 {
            number::decimal(h) + "h "@ + number::decimal(m) + "m "@ + number::decimal(s) + "s"@
        } else if m > 0 {
            number::decimal(m) + "m "@ + number::decimal(s) + "s"@
        } else {
            number::decimal(s) + "s"@
        },
{
    let n = (d * 86400 + h * 3600 + m * 60 + s) as u64;
    assert(n / 86400 == d);
    assert(n % 86400 == h * 3600 + m * 60 + s);
    assert((n % 86400) / 3600 == h);
    assert(n % 3600 == m * 60 + s) by {
        assert(n == (d * 24 + h) * 3600 + (m * 60 + s));
    }
    assert((n % 3600) / 60 == m);
    assert(n % 60 == s) by {
        assert(n == (d * 1440 + h * 60 + m) * 60 + s);
    }
}

// ---------------------------------------------------------------------------
// Dice
// ---------------------------------------------------------------------------

proof fn lemma_digits_only(n: nat)
    ensures
        number::decimal(n).len() > 0,
        text::unspaced(number::decimal(n)),
        forall|i: int|
            0 <= i < number::decimal(n).len() ==> '0' <= #[trigger] number::decimal(n)[i] <= '9',
        !number::decimal(n).contains('d'),
        text::trimmed(number::decimal(n)) == number::decimal(n),
        text::str_lowercase(number::decimal(n)) == number::decimal(n),
{
    let d = number::decimal(n);
    number::lemma_decimal_digits(n);
    assert forall|i: int| 0 <= i < d.len() implies '0' <= #[trigger] d[i] <= '9' by {
        assert(number::is_digit(d[i]));
    }
    assert(text::unspaced(d));
    let none = Seq::<char>::empty();
    assert(none + d + none =~= d);
    assert(d[d.len() - 1] == d.last());
    text::lemma_trim_around(none, d, none);
    assert(d.map_values(|c: char| text::ascii_lower(c)) =~= d);
}

/// Dice are written as their number, a `d` of either case and their sides; a number alone is one die
/// of so many sides, and nothing at all is one of six.
#[verifier::rlimit(30)]
pub proof fn law_dice_are_read(n: nat, s: nat, blank: Seq<char>)
    requires
        n <= u32::MAX,
        s <= u32::MAX,
        text::trimmed(blank).len() == 0,
    ensures
        utility::roll_request(number::decimal(n).push('d') + number::decimal(s)) == Some(
            (n as u32, s as u32),
        ),
        utility::roll_request(number::decimal(n).push('D') + number::decimal(s)) == Some(
            (n as u32, s as u32),
        ),
        utility::roll_request(number::decimal(s)) == Some((1u32, s as u32)),
        utility::roll_request(blank) == Some((1u32, 6u32)),
{
    let (a, b) = (number::decimal(n), number::decimal(s));
    lemma_digits_only(n);
    lemma_digits_only(s);
    number::law_decimal_round_trip(n, u32::MAX as nat);
    number::law_decimal_round_trip(s, u32::MAX as nat);
    text::lemma_one_piece(a, 'd');
    text::lemma_one_piece(b, 'd');
    text::lemma_last_piece(a, b, 'd');
    let low = a.push('d') + b;
    let high = a.push('D') + b;
    let none = Seq::<char>::empty();
    assert(b[b.len() - 1] == b.last());
    assert(low[0] == a[0] && low.last() == b.last());
    assert(high[0] == a[0] && high.last() == b.last());
    assert(none + low + none =~= low);
    assert(none + high + none =~= high);
    text::lemma_trim_around(none, low, none);
    text::lemma_trim_around(none, high, none);
    assert forall|i: int| 0 <= i < low.len() implies text::ascii_lower(#[trigger] high[i]) == low[i]
        && text::ascii_lower(low[i]) == low[i] by {
        if i < a.len() {
            assert(high[i] == a[i] && low[i] == a[i]);
        } else if i > a.len() {
            assert(high[i] == b[i - a.len() - 1] && low[i] == b[i - a.len() - 1]);
        }
    }
    assert forall|i: int| 0 <= i < low.len() implies (#[trigger] low[i]) as u32 <= 127 by {
        if i < a.len() {
            assert(low[i] == a[i]);
        } else if i > a.len() {
            assert(low[i] == b[i - a.len() - 1]);
        }
    }
    assert forall|i: int| 0 <= i < high.len() implies (#[trigger] high[i]) as u32 <= 127 by {
        if i < a.len() {
            assert(high[i] == a[i]);
        } else if i > a.len() {
            assert(high[i] == b[i - a.len() - 1]);
        }
    }
    assert(text::ascii_only(low));
    assert(text::ascii_only(high));
    assert(low.map_values(|c: char| text::ascii_lower(c)) =~= low);
    assert(high.map_values(|c: char| text::ascii_lower(c)) =~= low);
}

/// One to a hundred dice of two to a thousand sides are rolled, and no others.
pub proof fn law_dice_that_are_rolled(n: u32, s: u32)
    ensures
        utility::roll_refusal(Some((n, s))) is None <==> 1 <= n <= 100 && 2 <= s <= 1000,
        utility::roll_refusal(None) is Some,
{
}

/// A total is that of the parts.
pub proof fn law_rolls_add_up(a: Seq<u64>, b: Seq<u64>)
    ensures
        utility::total(a + b) == utility::total(a) + utility::total(b),
        forall|n: u64| #[trigger] utility::total(seq![n]) == n,
    decreases b.len(),
{
    if b.len() == 0 {
        assert(a + b =~= a);
    } else {
        assert((a + b).drop_last() =~= a + b.drop_last());
        law_rolls_add_up(a, b.drop_last());
    }
    assert forall|n: u64| #[trigger] utility::total(seq![n]) == n by {
        let one = seq![n];
        assert(one.drop_last() =~= Seq::empty());
        assert(utility::total(one.drop_last()) == 0);
    }
}

/// What was rolled is told with every die, the total and the dice that were asked for.
pub proof fn law_rolls_are_told(rolls: Seq<u64>, sides: u32, i: int)
    requires
        rolls.len() > 1,
        0 <= i < rolls.len(),
    ensures
        text::has_substring(utility::roll_text(rolls, sides), number::decimal(rolls[i] as nat)),
        text::has_substring(
            utility::roll_text(rolls, sides),
            "] = "@ + number::decimal(utility::total(rolls)) + " ("@,
        ),
        text::has_substring(
            utility::roll_text(rolls, sides),
            number::decimal(rolls.len()) + "d"@ + number::decimal(sides as nat) + ")"@,
        ),
{
    let list = utility::decimals(rolls);
    let sum = text::joined(list, " + "@);
    let t = number::decimal(utility::total(rolls));
    let (n, s) = (number::decimal(rolls.len()), number::decimal(sides as nat));
    let whole = utility::roll_text(rolls, sides);
    text::lemma_joined_holds(list, " + "@, i);
    assert(list[i] == number::decimal(rolls[i] as nat));
    let tail = "] = "@ + t + " ("@ + n + "d"@ + s + ")"@;
    assert(whole =~= "🎲 ["@ + sum + tail);
    text::lemma_substring_between("🎲 ["@, sum, tail);
    text::lemma_substring_of_part(whole, sum, list[i]);
    let middle = "] = "@ + t + " ("@;
    assert(whole =~= ("🎲 ["@ + sum) + middle + (n + "d"@ + s + ")"@));
    text::lemma_substring_between("🎲 ["@ + sum, middle, n + "d"@ + s + ")"@);
    let none = Seq::<char>::empty();
    assert(whole =~= ("🎲 ["@ + sum + middle) + (n + "d"@ + s + ")"@) + none);
    text::lemma_substring_between("🎲 ["@ + sum + middle, n + "d"@ + s + ")"@, none);
}

// ---------------------------------------------------------------------------
// Reminders
// ---------------------------------------------------------------------------

/// The words for a unit of time.
pub open spec fn means(unit: Seq<char>, name: Seq<char>) -> bool {
    ||| name == "minute"@ && (unit == "m"@ || unit == "min"@ || unit == "mins"@ || unit == "minute"@
        || unit == "minutes"@)
    ||| name == "hour"@ && (unit == "h"@ || unit == "hr"@ || unit == "hrs"@ || unit == "hour"@ || unit
        == "hours"@)
    ||| name == "day"@ && (unit == "d"@ || unit == "day"@ || unit == "days"@)
}

proof fn lemma_units(unit: Seq<char>, name: Seq<char>)
    requires
        means(unit, name),
    ensures
        utility::unit_name(unit) == Some(name),
        unit.len() > 0,
        forall|i: int| 0 <= i < unit.len() ==> 'a' <= #[trigger] unit[i] <= 'z',
{
    reveal_strlit("m");
    reveal_strlit("min");
    reveal_strlit("mins");
    reveal_strlit("minute");
    reveal_strlit("minutes");
    reveal_strlit("h");
    reveal_strlit("hr");
    reveal_strlit("hrs");
    reveal_strlit("hour");
    reveal_strlit("hours");
    reveal_strlit("d");
    reveal_strlit("day");
    reveal_strlit("days");
    if name == "minute"@ && unit[0] == 'm' {
    } else if unit[0] == 'h' {
    } else {
    }
}

proof fn lemma_digits_len(d: Seq<char>, rest: Seq<char>)
    requires
        forall|i: int| 0 <= i < d.len() ==> number::is_digit(#[trigger] d[i]),
        rest.len() == 0 || !number::is_digit(rest[0]),
    ensures
        utility::digits_len(d + rest) == d.len(),
    decreases d.len(),
{
    let all = d + rest;
    if d.len() == 0 {
        assert(all =~= rest);
    } else {
        let less = d.drop_first();
        assert(all[0] == d[0]);
        assert(all.drop_first() =~= less + rest);
        assert forall|i: int| 0 <= i < less.len() implies number::is_digit(#[trigger] less[i]) by {
            assert(less[i] == d[i + 1]);
        }
        lemma_digits_len(less, rest);
    }
}

proof fn lemma_letters_len(d: Seq<char>, rest: Seq<char>)
    requires
        forall|i: int| 0 <= i < d.len() ==> text::char_is_alphabetic(#[trigger] d[i]),
        rest.len() == 0 || !text::char_is_alphabetic(rest[0]),
    ensures
        utility::letters_len(d + rest) == d.len(),
    decreases d.len(),
{
    let all = d + rest;
    if d.len() == 0 {
        assert(all =~= rest);
    } else {
        let less = d.drop_first();
        assert(all[0] == d[0]);
        assert(all.drop_first() =~= less + rest);
        assert forall|i: int| 0 <= i < less.len() implies text::char_is_alphabetic(
            #[trigger] less[i],
        ) by {
            assert(less[i] == d[i + 1]);
        }
        lemma_letters_len(less, rest);
    }
}

proof fn lemma_reminder_number(d: Seq<char>, gap: Seq<char>, after: Seq<char>, input: Seq<char>)
    requires
        d.len() > 0,
        forall|i: int| 0 <= i < d.len() ==> number::is_digit(#[trigger] d[i]),
        gap.len() == 0 || gap == seq![' '],
        after.len() > 0,
        'a' <= after[0] <= 'z',
        !text::char_is_whitespace(after.last()),
        input == d + (gap + after),
    ensures
        text::trimmed(input) == input,
        utility::digits_len(input) == d.len(),
        input.take(d.len() as int) == d,
        text::trimmed_start(input.skip(d.len() as int)) == after,
{
    let none = Seq::<char>::empty();
    let rest = gap + after;
    assert(number::is_digit(d[0]));
    assert(input[0] == d[0] && input.last() == after.last());
    assert(none + input + none =~= input);
    text::lemma_trim_around(none, input, none);
    assert(rest[0] == if gap.len() > 0 {
        ' '
    } else {
        after[0]
    });
    lemma_digits_len(d, rest);
    assert(input.take(d.len() as int) =~= d);
    assert(input.skip(d.len() as int) =~= rest);
    assert(text::trimmed_start(after) == after);
    if gap.len() > 0 {
        assert(rest.drop_first() =~= after);
    } else {
        assert(rest =~= after);
    }
}

proof fn lemma_reminder_unit(unit: Seq<char>, message: Seq<char>)
    requires
        unit.len() > 0,
        forall|i: int| 0 <= i < unit.len() ==> 'a' <= #[trigger] unit[i] <= 'z',
        message.len() > 0,
        text::trimmed(message) == message,
    ensures
        ({
            let after = unit + (seq![' '] + message);
            &&& after[0] == unit[0]
            &&& !text::char_is_whitespace(after.last())
            &&& utility::letters_len(after) == unit.len()
            &&& after.take(unit.len() as int) == unit
            &&& text::trimmed(after.skip(unit.len() as int)) == message
            &&& text::str_lowercase(unit) == unit
        }),
{
    let space = seq![' '];
    let tail = space + message;
    let after = unit + tail;
    let none = Seq::<char>::empty();
    text::law_trimmed_has_bare_ends(message);
    assert(after.last() == message.last());
    assert(tail[0] == ' ');
    assert forall|i: int| 0 <= i < unit.len() implies text::char_is_alphabetic(#[trigger] unit[i]) by {}
    lemma_letters_len(unit, tail);
    assert(after.take(unit.len() as int) =~= unit);
    assert(after.skip(unit.len() as int) =~= tail);
    assert(tail =~= space + message + none);
    text::lemma_trim_around(space, message, none);
    assert(text::ascii_only(unit));
    assert(unit.map_values(|c: char| text::ascii_lower(c)) =~= unit);
}

/// A reminder is a number, a unit of time right behind it or after a space, and the message: it is
/// set for so many of the unit, with that message.
pub proof fn law_reminder_is_read(
    n: nat,
    gap: Seq<char>,
    unit: Seq<char>,
    name: Seq<char>,
    message: Seq<char>,
)
    requires
        n <= u64::MAX,
        gap.len() == 0 || gap == seq![' '],
        means(unit, name),
        message.len() > 0,
        text::trimmed(message) == message,
    ensures
        utility::reminder_of(number::decimal(n) + gap + unit + seq![' '] + message) == Some(
            (
                number::decimal(n) + " "@ + name + (if n == 1 {
                    ""@
                } else {
                    "s"@
                }),
                message,
            ),
        ),
{
    let d = number::decimal(n);
    lemma_units(unit, name);
    number::lemma_decimal_digits(n);
    lemma_reminder_unit(unit, message);
    let after = unit + (seq![' '] + message);
    let input = d + (gap + after);
    assert(d + gap + unit + seq![' '] + message =~= input);
    lemma_reminder_number(d, gap, after, input);
    number::law_decimal_round_trip(n, u64::MAX as nat);
}

// ---------------------------------------------------------------------------
// Polls and choices
// ---------------------------------------------------------------------------

/// The options of a poll are numbered from one: the sign of a number up to nine is its digit in a
/// keycap.
pub proof fn law_options_are_numbered(n: int)
    requires
        1 <= n <= 9,
    ensures
        utility::number_sign(n) == seq![(0x30 + n) as char, '\u{20E3}'],
{
    reveal_strlit("1⃣");
    reveal_strlit("2⃣");
    reveal_strlit("3⃣");
    reveal_strlit("4⃣");
    reveal_strlit("5⃣");
    reveal_strlit("6⃣");
    reveal_strlit("7⃣");
    reveal_strlit("8⃣");
    reveal_strlit("9⃣");
    assert(utility::number_sign(n) =~= seq![(0x30 + n) as char, '\u{20E3}']);
}

/// Each option of a poll stands on a line of its own, behind its number.
pub proof fn law_options_are_listed(parts: Seq<Seq<char>>, count: int, i: int)
    requires
        1 <= i <= count < parts.len(),
    ensures
        text::has_substring(
            utility::option_lines(parts, count),
            utility::number_sign(i) + "️ "@ + parts[i] + "\n"@,
        ),
    decreases count,
{
    let line = utility::number_sign(i) + "️ "@ + parts[i] + "\n"@;
    let rest = utility::option_lines(parts, count - 1);
    let last = "  "@ + utility::number_sign(count) + "️ "@ + parts[count] + "\n"@;
    let whole = utility::option_lines(parts, count);
    let none = Seq::<char>::empty();
    if i == count {
        assert(whole =~= (rest + "  "@) + line + none);
        text::lemma_substring_between(rest + "  "@, line, none);
    } else {
        law_options_are_listed(parts, count - 1, i);
        assert(none + rest + last =~= whole);
        text::lemma_substring_between(none, rest, last);
        text::lemma_substring_of_part(whole, rest, line);
    }
}

/// A poll takes a question and at least two options.
pub proof fn law_poll_needs_options(parts: Seq<Seq<char>>)
    requires
        parts.len() >= 3,
        parts[0].len() > 0,
        !text::char_is_whitespace(parts[0][0]),
        !text::char_is_whitespace(parts[0].last()),
    ensures
        text::has_substring(utility::poll_text(parts), parts[0]),
        text::has_substring(utility::poll_text(parts), "React to vote!"@),
{
    reveal_strlit("React to vote!");
    reveal_strlit("\nReact to vote!");
    let lines = utility::option_lines(parts, parts.len() - 1);
    let none = Seq::<char>::empty();
    let all = "📊 **"@ + parts[0] + "**\n"@ + lines + "\nReact to vote!"@;
    let tail = "**\n"@ + lines + "\nReact to vote!"@;
    assert(all =~= "📊 **"@ + parts[0] + tail);
    text::lemma_substring_between("📊 **"@, parts[0], tail);
    text::law_trimming_keeps_what_is_bare(all, parts[0]);
    assert("\nReact to vote!"@ =~= seq!['\n'] + "React to vote!"@);
    assert(all =~= ("📊 **"@ + parts[0] + "**\n"@ + lines + seq!['\n']) + "React to vote!"@ + none);
    text::lemma_substring_between(
        "📊 **"@ + parts[0] + "**\n"@ + lines + seq!['\n'],
        "React to vote!"@,
        none,
    );
    text::law_trimming_keeps_what_is_bare(all, "React to vote!"@);
}

/// Options are parted by bars: one that follows a bar is one more.
#[verifier::rlimit(30)]
pub proof fn law_options_are_parted(first: Seq<char>, second: Seq<char>)
    requires
        first.len() > 0,
        second.len() > 0,
        text::trimmed(first) == first,
        text::trimmed(second) == second,
        !first.contains('|'),
        !second.contains('|'),
    ensures
        fun::options_of(first + " | "@ + second) == seq![first, second],
        fun::choice_refusal(first + " | "@ + second) is None,
        fun::options_of(first) == seq![first],
        fun::choice_refusal(first) is Some,
{
    reveal_strlit(" | ");
    text::law_trimmed_has_bare_ends(first);
    text::law_trimmed_has_bare_ends(second);
    let none = Seq::<char>::empty();
    let all = first + " | "@ + second;
    assert(all[0] == first[0] && all.last() == second.last());
    assert(none + all + none =~= all);
    text::lemma_trim_around(none, all, none);
    let space = seq![' '];
    let a = first + space;
    let b = space + second;
    assert(all =~= a.push('|') + b);
    if a.contains('|') {
        let k = choose|k: int| 0 <= k < a.len() && a[k] == '|';
        assert(k < first.len() && first[k] == '|');
    }
    if b.contains('|') {
        let k = choose|k: int| 0 <= k < b.len() && b[k] == '|';
        assert(k > 0 && second[k - 1] == '|');
    }
    text::lemma_one_piece(a, '|');
    text::lemma_last_piece(a, b, '|');
    text::lemma_one_piece(first, '|');
    assert(none + first + space =~= a);
    assert(space + second + none =~= b);
    text::lemma_trim_around(none, first, space);
    text::lemma_trim_around(space, second, none);
    let empty = Seq::<Seq<char>>::empty();
    text::law_blank_entries_go(empty, a);
    text::law_blank_entries_go(empty.push(a), b);
    text::law_blank_entries_go(empty, first);
    assert(empty.push(a).push(b) =~= seq![a].push(b));
    assert(empty.push(first) =~= seq![first]);
    assert(fun::options_of(all) =~= seq![first, second]);
    assert(fun::options_of(first) =~= seq![first]);
}

/// Rock beats scissors, scissors beat paper and paper beats rock; like hands tie, and the other way
/// round is lost.
pub proof fn law_hands_beat_in_a_round()
    ensures
        fun::rps_result("rock"@, "scissors"@) == RpsResult::Win,
        fun::rps_result("scissors"@, "paper"@) == RpsResult::Win,
        fun::rps_result("paper"@, "rock"@) == RpsResult::Win,
        fun::rps_result("scissors"@, "rock"@) == RpsResult::Lose,
        fun::rps_result("paper"@, "scissors"@) == RpsResult::Lose,
        fun::rps_result("rock"@, "paper"@) == RpsResult::Lose,
        forall|hand: Seq<char>| #[trigger] fun::rps_result(hand, hand) == RpsResult::Tie,
{
    reveal_strlit("rock");
    reveal_strlit("paper");
    reveal_strlit("scissors");
    assert("rock"@.len() != "paper"@.len());
    assert("rock"@.len() != "scissors"@.len());
    assert("paper"@.len() != "scissors"@.len());
}

/// A hand is named by its word or its first letter, in any case and with whitespace around.
pub proof fn law_hands_are_named(args: Seq<char>)
    ensures
        ({
            let said = text::str_lowercase(text::trimmed(args));
            &&& fun::hand_of(args) == Some("rock"@) <==> said == "rock"@ || said == seq!['r']
            &&& fun::hand_of(args) == Some("paper"@) <==> said == "paper"@ || said == seq!['p']
            &&& fun::hand_of(args) == Some("scissors"@) <==> said == "scissors"@ || said == seq!['s']
            &&& fun::hand_of(args) is Some ==> fun::is_hand(fun::hand_of(args)->0)
        }),
{
    reveal_strlit("rock");
    reveal_strlit("paper");
    reveal_strlit("scissors");
    reveal_strlit("r");
    reveal_strlit("p");
    reveal_strlit("s");
    assert("r"@ =~= seq!['r']);
    assert("p"@ =~= seq!['p']);
    assert("s"@ =~= seq!['s']);
    assert("rock"@.len() != "paper"@.len());
    assert("rock"@.len() != "scissors"@.len());
    assert("paper"@.len() != "scissors"@.len());
    assert("rock"@[0] == 'r' && "paper"@[0] == 'p' && "scissors"@[0] == 's');
    assert(seq!['r'][0] == 'r' && seq!['p'][0] == 'p' && seq!['s'][0] == 's');
}

/// A round is told by whose hand beats the other.
pub proof fn law_round_is_told(player: Seq<char>, bot: Seq<char>)
    requires
        fun::is_hand(player),
        fun::is_hand(bot),
    ensures
        player == bot ==> text::has_substring(fun::round_text(player, bot), "It's a tie!"@),
        fun::beats(player, bot) ==> text::has_substring(fun::round_text(player, bot), "You win!"@),
        fun::beats(bot, player) ==> text::has_substring(fun::round_text(player, bot), "I win!"@),
{
    reveal_strlit("It's a tie!");
    reveal_strlit("You win!");
    reveal_strlit("I win!");
    reveal_strlit("\n🤝 It's a tie!");
    reveal_strlit("\n🎉 You win!");
    reveal_strlit("\n💀 I win!");
    reveal_strlit("rock");
    reveal_strlit("paper");
    reveal_strlit("scissors");
    assert("rock"@.len() != "paper"@.len());
    assert("rock"@.len() != "scissors"@.len());
    assert("paper"@.len() != "scissors"@.len());
    let head = fun::hand_sign(player) + " vs "@ + fun::hand_sign(bot);
    let none = Seq::<char>::empty();
    if player == bot {
        let t = "\n🤝 It's a tie!"@;
        assert(head + t =~= (head + t.take(3)) + "It's a tie!"@ + none);
        text::lemma_substring_between(head + t.take(3), "It's a tie!"@, none);
    } else if fun::beats(player, bot) {
        let t = "\n🎉 You win!"@;
        assert(head + t =~= (head + t.take(3)) + "You win!"@ + none);
        text::lemma_substring_between(head + t.take(3), "You win!"@, none);
    } else {
        let t = "\n💀 I win!"@;
        assert(head + t =~= (head + t.take(3)) + "I win!"@ + none);
        text::lemma_substring_between(head + t.take(3), "I win!"@, none);
    }
}

// ---------------------------------------------------------------------------
// Requests of two parts
// ---------------------------------------------------------------------------

/// The first word of an edit names the message, and all that follows it is the new text.
pub proof fn law_edit_is_read(id: Seq<char>, text_of: Seq<char>)
    requires
        id.len() > 0,
        text::unspaced(id),
        text_of.len() > 0,
        text::trimmed(text_of) == text_of,
    ensures
        utility::edit_request(id.push(' ') + text_of) == Some((id, text_of)),
        utility::edit_request(id) is None,
{
    text::law_first_word_is_cut(id, ' ', text_of);
    let none = Seq::<char>::empty();
    assert(none + id + none =~= id);
    assert(id[id.len() - 1] == id.last());
    text::lemma_trim_around(none, id, none);
}

/// The first word of a translation names the language, and all that follows it is translated.
pub proof fn law_translation_is_read(lang: Seq<char>, what: Seq<char>)
    requires
        lang.len() > 0,
        text::unspaced(lang),
        what.len() > 0,
        text::trimmed(what) == what,
    ensures
        utility::translation_request(lang.push(' ') + what) == Ok::<_, Seq<char>>((lang, what)),
        utility::translation_request(lang) is Err,
{
    let none = Seq::<char>::empty();
    let all = lang.push(' ') + what;
    text::law_first_word_is_cut(lang, ' ', what);
    text::law_trimmed_has_bare_ends(what);
    assert(none + lang + none =~= lang);
    assert(lang[lang.len() - 1] == lang.last());
    text::lemma_trim_around(none, lang, none);
    assert(none + all + none =~= all);
    assert(all[0] == lang[0] && all.last() == what.last());
    text::lemma_trim_around(none, all, none);
}

/// Only addresses of the web are shortened.
pub proof fn law_web_addresses_are_shortened(rest: Seq<char>, other: Seq<char>)
    requires
        other.len() == 0 || other[0] != 'h',
    ensures
        utility::shorten_refusal("https://"@ + rest) is None,
        utility::shorten_refusal("http://"@ + rest) is None,
        utility::shorten_refusal(other) is Some,
{
    reveal_strlit("https://");
    reveal_strlit("http://");
    let a = "https://"@ + rest;
    let b = "http://"@ + rest;
    assert(a.subrange(0, 8) =~= "https://"@);
    assert(b.subrange(0, 7) =~= "http://"@);
    if "https://"@.is_prefix_of(other) {
        assert(other.subrange(0, 8)[0] == 'h');
    }
    if "http://"@.is_prefix_of(other) {
        assert(other.subrange(0, 7)[0] == 'h');
    }
}

/// A deletion that is refused for want of a right is told so, in whatever case the refusal is.
pub proof fn law_refused_deletion_is_told(before: Seq<char>, after: Seq<char>, shown: Seq<char>)
    ensures
        forall|detail: Seq<char>|
            text::str_lowercase(detail) == #[trigger] ((before + "permission"@) + after)
                ==> utility::delete_failure(detail, shown)
                == "⚠️ I don't have permission to delete that message."@,
        forall|detail: Seq<char>|
            text::str_lowercase(detail) == #[trigger] ((before + "manage"@) + after)
                ==> utility::delete_failure(detail, shown)
                == "⚠️ I don't have permission to delete that message."@,
{
    text::lemma_substring_between(before, "permission"@, after);
    text::lemma_substring_between(before, "manage"@, after);
}

// ---------------------------------------------------------------------------
// Weather and words
// ---------------------------------------------------------------------------

/// The codes of a kind of weather are told alike, each kind otherwise.
pub proof fn law_weather_is_told_by_kind(c: i64)
    ensures
        c == 0 ==> utility::conditions(Some(c)) == "☀️ Clear sky"@,
        c == 1 ==> utility::conditions(Some(c)) == "🌤️ Mainly clear"@,
        c == 2 ==> utility::conditions(Some(c)) == "⛅ Partly cloudy"@,
        c == 3 ==> utility::conditions(Some(c)) == "☁️ Overcast"@,
        c == 45 || c == 48 ==> utility::conditions(Some(c)) == "🌫️ Fog"@,
        51 <= c <= 55 && c % 2 == 1 ==> utility::conditions(Some(c)) == "🌦️ Drizzle"@,
        56 <= c <= 57 ==> utility::conditions(Some(c)) == "🌧️ Freezing drizzle"@,
        61 <= c <= 65 && c % 2 == 1 ==> utility::conditions(Some(c)) == "🌧️ Rain"@,
        66 <= c <= 67 ==> utility::conditions(Some(c)) == "🌧️ Freezing rain"@,
        71 <= c <= 75 && c % 2 == 1 ==> utility::conditions(Some(c)) == "❄️ Snow"@,
        c == 77 ==> utility::conditions(Some(c)) == "🌨️ Snow grains"@,
        80 <= c <= 82 ==> utility::conditions(Some(c)) == "🌧️ Rain showers"@,
        85 <= c <= 86 ==> utility::conditions(Some(c)) == "🌨️ Snow showers"@,
        c == 95 ==> utility::conditions(Some(c)) == "⛈️ Thunderstorm"@,
        c == 96 || c == 99 ==> utility::conditions(Some(c)) == "⛈️ Thunderstorm with hail"@,
        c < 0 || 3 < c < 45 || 48 < c < 51 || 86 < c < 95 || c > 99 ==> utility::conditions(Some(c))
            == utility::conditions(None),
{
}

/// A place is named by what stands before the first comma of its address.
pub proof fn law_place_is_named_first(place: JsonView, name: Seq<char>, rest: Seq<char>)
    requires
        name.len() > 0,
        text::trimmed(name) == name,
        !name.contains(','),
        place.text_at("display_name"@) == Some(name.push(',') + rest) || place.text_at(
            "display_name"@,
        ) == Some(name),
    ensures
        utility::place_name(place) == name,
{
    text::lemma_one_piece(name, ',');
    let tail = seq![','] + rest;
    assert(name.push(',') + rest =~= name + tail);
    text::lemma_pieces_before(name, tail, ',');
    assert(text::pieces(name + tail, ',').take(1)[0] == name);
}

/// The meanings of a word come in their order, and of each the definitions in theirs.
pub proof fn law_definitions_come_in_order(
    list: Seq<JsonView>,
    m: JsonView,
    pos: Seq<char>,
    defs: Seq<JsonView>,
    d: JsonView,
)
    ensures
        utility::all_meanings(list.push(m)) == utility::all_meanings(list) + utility::meaning_lines(m),
        d.text_at("definition"@) matches Some(t) ==> utility::definition_lines(pos, defs.push(d))
            == utility::definition_lines(pos, defs).push("  *("@ + pos + ")* "@ + t + "\n"@),
        d.text_at("definition"@) is None ==> utility::definition_lines(pos, defs.push(d))
            == utility::definition_lines(pos, defs),
{
    assert(list.push(m).drop_last() =~= list);
    assert(defs.push(d).drop_last() =~= defs);
}

/// At most three definitions are shown, the first ones.
pub proof fn law_three_definitions_are_shown(word: Seq<char>, e: JsonView)
    requires
        utility::entry_lines(e).len() > 0,
        e.text_at("phonetic"@) is None,
    ensures
        ({
            let lines = utility::entry_lines(e);
            let head = "📖 **"@ + word + "**\n"@;
            utility::entry_text(word, e) == text::trimmed(
                if lines.len() == 1 {
                    head + lines[0]
                } else if lines.len() == 2 {
                    head + lines[0] + lines[1]
                } else {
                    head + lines[0] + lines[1] + lines[2]
                },
            )
        }),
{
    reveal_with_fuel(utility::first_lines, 4);
    reveal_strlit("");
    reveal_strlit("**\n");
    reveal_strlit("**");
    reveal_strlit("\n");
    let lines = utility::entry_lines(e);
    let head = "📖 **"@ + word + "**\n"@;
    let none = Seq::<char>::empty();
    assert(""@ =~= none);
    assert("**\n"@ =~= "**"@ + "\n"@);
    let start = "📖 **"@ + word + "**"@ + ""@ + "\n"@;
    assert(start =~= head);
    if lines.len() == 1 {
        assert(start + utility::first_lines(lines, 1) =~= head + lines[0]);
    } else if lines.len() == 2 {
        assert(start + utility::first_lines(lines, 2) =~= head + lines[0] + lines[1]);
    } else {
        assert(start + utility::first_lines(lines, 3) =~= head + lines[0] + lines[1] + lines[2]);
    }
}

} // verus!
