//! What holds of the auto-moderation commands and of what is said about an action.

use vstd::prelude::*;
use crate::config::AutoModSection;
use crate::handlers::automod::command;
use crate::handlers::automod::command::CommandView;
use crate::handlers::automod::enforce;
use crate::handlers::automod::enforce::Sanctioned;
use crate::handlers::automod::engine;
use crate::handlers::automod::engine::EngineView;
use crate::handlers::automod::{AutoModVerdict, UserView};
use crate::handlers::moderation_laws;
use crate::{handlers, number, order, text};

verus! {

// ---------------------------------------------------------------------------
// Reading the commands
// ---------------------------------------------------------------------------

proof fn lemma_words_of_commands()
    ensures
        "on"@.len() == 2,
        "off"@.len() == 3,
        "status"@.len() == 6,
        ""@.len() == 0,
        "words"@.len() == 5 && "words"@[0] == 'w',
        "allowlist"@.len() == 9,
        "history"@.len() == 7,
        "reset"@.len() == 5 && "reset"@[0] == 'r',
        "add"@.len() == 3,
        "remove"@.len() == 6,
        "rm"@.len() == 2,
        "list"@.len() == 4,
        text::unspaced("on"@),
        text::unspaced("off"@),
        text::unspaced("status"@),
        text::unspaced("words"@),
        text::unspaced("allowlist"@),
        text::unspaced("history"@),
        text::unspaced("reset"@),
        text::unspaced("add"@),
        text::unspaced("remove"@),
        text::unspaced("rm"@),
        text::unspaced("list"@),
{
    reveal_strlit("on");
    reveal_strlit("off");
    reveal_strlit("status");
    reveal_strlit("");
    reveal_strlit("words");
    reveal_strlit("allowlist");
    reveal_strlit("history");
    reveal_strlit("reset");
    reveal_strlit("add");
    reveal_strlit("remove");
    reveal_strlit("rm");
    reveal_strlit("list");
}

/// Auto-moderation is switched on by `on` and off by `off`, and told of where nothing or `status` is
/// asked.
pub proof fn law_switch_is_read()
    ensures
        command::command_of("on"@) == CommandView::Switch(true),
        command::command_of("off"@) == CommandView::Switch(false),
        command::command_of("status"@) == CommandView::Status,
        command::command_of(Seq::empty()) == CommandView::Status,
        command::command_of("words"@) == CommandView::ListWords,
        command::command_of("allowlist"@) == CommandView::ListDomains,
        command::command_of("history"@) == CommandView::History(None),
{
    lemma_words_of_commands();
    let none = Seq::<char>::empty();
    text::law_words_are_counted(none, ' ', "on"@);
    text::law_words_are_counted(none, ' ', "off"@);
    text::law_words_are_counted(none, ' ', "status"@);
    text::law_words_are_counted(none, ' ', "words"@);
    text::law_words_are_counted(none, ' ', "allowlist"@);
    text::law_words_are_counted(none, ' ', "history"@);
    assert(""@ =~= none);
    assert(text::trimmed(none) =~= none);
    assert(handlers::plain_npub(none).len() == 0) by {
        reveal_strlit("nostr:");
    }
}

proof fn lemma_three(a: Seq<char>, b: Seq<char>, rest: Seq<char>)
    requires
        a.len() > 0,
        b.len() > 0,
        text::unspaced(a),
        text::unspaced(b),
    ensures
        ({
            let args = a.push(' ') + (b.push(' ') + rest);
            &&& text::words(args).len() >= 2
            &&& text::words(args)[0] == a
            &&& text::words(args)[1] == b
            &&& text::words(args).skip(2) == text::words(rest)
            &&& text::tail_words(args) == Some(b.push(' ') + rest)
            &&& text::tail_words(b.push(' ') + rest) == Some(rest)
        }),
{
    let none = Seq::<char>::empty();
    let args = a.push(' ') + (b.push(' ') + rest);
    text::law_words_are_counted(none, ' ', a);
    text::law_words_are_counted(none, ' ', b);
    text::law_words_add_up(b, ' ', rest);
    text::law_words_add_up(a, ' ', b.push(' ') + rest);
    text::law_first_word_is_cut(a, ' ', b.push(' ') + rest);
    text::law_first_word_is_cut(b, ' ', rest);
    assert(text::words(args).skip(2) =~= text::words(rest));
}

/// A word or phrase is banned or freed by what stands behind the verb, whole.
pub proof fn law_phrase_is_read(phrase: Seq<char>)
    requires
        phrase.len() > 0,
        text::trimmed(phrase) == phrase,
    ensures
        command::command_of("words"@.push(' ') + ("add"@.push(' ') + phrase)) == CommandView::AddWord(
            phrase,
        ),
        command::command_of("words"@.push(' ') + ("remove"@.push(' ') + phrase))
            == CommandView::RemoveWord(phrase),
        command::command_of("words"@.push(' ') + ("rm"@.push(' ') + phrase)) == CommandView::RemoveWord(
            phrase,
        ),
{
    lemma_words_of_commands();
    lemma_three("words"@, "add"@, phrase);
    lemma_three("words"@, "remove"@, phrase);
    lemma_three("words"@, "rm"@, phrase);
}

/// A domain is allowed or struck off by the word behind the verb.
pub proof fn law_domain_is_read(domain: Seq<char>)
    requires
        domain.len() > 0,
        text::unspaced(domain),
    ensures
        command::command_of("allowlist"@.push(' ') + ("add"@.push(' ') + domain))
            == CommandView::AddDomain(domain),
        command::command_of("allowlist"@.push(' ') + ("remove"@.push(' ') + domain))
            == CommandView::RemoveDomain(domain),
        command::command_of("allowlist"@.push(' ') + ("rm"@.push(' ') + domain))
            == CommandView::RemoveDomain(domain),
{
    let none = Seq::<char>::empty();
    lemma_words_of_commands();
    lemma_three("allowlist"@, "add"@, domain);
    lemma_three("allowlist"@, "remove"@, domain);
    lemma_three("allowlist"@, "rm"@, domain);
    text::law_words_are_counted(none, ' ', domain);
    let a = text::words("allowlist"@.push(' ') + ("add"@.push(' ') + domain));
    let b = text::words("allowlist"@.push(' ') + ("remove"@.push(' ') + domain));
    let c = text::words("allowlist"@.push(' ') + ("rm"@.push(' ') + domain));
    assert(a.skip(2).len() == 1 && b.skip(2).len() == 1 && c.skip(2).len() == 1);
    assert(a.skip(2)[0] == domain && b.skip(2)[0] == domain && c.skip(2)[0] == domain);
    assert(a[2] == domain && b[2] == domain && c[2] == domain);
}

/// A user's history is shown and cleared by the npub that is named.
pub proof fn law_user_of_a_command_is_read(npub: Seq<char>)
    requires
        moderation_laws::names_member(npub),
    ensures
        command::command_of("history"@.push(' ') + npub) == CommandView::History(Some(npub)),
        command::command_of("reset"@.push(' ') + npub) == CommandView::Reset(npub),
{
    lemma_words_of_commands();
    reveal_strlit("nostr:");
    let none = Seq::<char>::empty();
    text::law_words_are_counted(none, ' ', "history"@);
    text::law_words_are_counted(none, ' ', "reset"@);
    text::law_words_are_counted("history"@, ' ', npub);
    text::law_words_are_counted("reset"@, ' ', npub);
    assert(npub.take(5)[0] == 'n' && npub.take(5)[1] == 'p');
    assert(npub[0] == 'n' && npub[1] == 'p');
    if "nostr:"@.is_prefix_of(npub) {
        assert(npub.subrange(0, 6)[1] == 'o');
    }
    assert(none + npub + none =~= npub);
    assert(npub[npub.len() - 1] == npub.last());
    text::lemma_trim_around(none, npub, none);
}

// ---------------------------------------------------------------------------
// Running the commands
// ---------------------------------------------------------------------------

/// The owner switches auto-moderation; nothing else of it changes but the start of the log-only
/// window, which opens anew where it was off.
pub proof fn law_owner_switches(e: EngineView, on: bool, now: u64)
    ensures
        command::after_command(e, CommandView::Switch(on), true, now).enabled == on,
        command::after_command(e, CommandView::Switch(on), true, now).users == e.users,
        command::after_command(e, CommandView::Switch(on), true, now).words == e.words,
        on && !e.enabled ==> command::after_command(
            e,
            CommandView::Switch(on),
            true,
            now,
        ).enabled_at == now,
        !on || e.enabled ==> command::after_command(
            e,
            CommandView::Switch(on),
            true,
            now,
        ).enabled_at == e.enabled_at,
{
}

/// A word that the owner bans is banned from then on, in lower case, and every other stays banned.
pub proof fn law_word_is_banned(e: EngineView, word: Seq<char>, now: u64, other: Seq<char>)
    requires
        word.len() > 0,
        text::trimmed(word) == word,
        text::str_lowercase(word) == word,
    ensures
        command::after_command(e, CommandView::AddWord(word), true, now).words.contains(word),
        e.words.contains(other) ==> command::after_command(
            e,
            CommandView::AddWord(word),
            true,
            now,
        ).words.contains(other),
        command::after_command(e, CommandView::AddWord(word), true, now).words.contains(other)
            ==> e.words.contains(other) || other == word,
        !command::after_command(
            command::after_command(e, CommandView::AddWord(word), true, now),
            CommandView::RemoveWord(word),
            true,
            now,
        ).words.contains(word),
{
    let f = command::after_command(e, CommandView::AddWord(word), true, now);
    assert(engine::entry(word) == word);
    if !e.words.contains(word) {
        assert(f.words == e.words.push(word));
        assert(f.words[e.words.len() as int] == word);
        if e.words.contains(other) {
            let i = choose|i: int| 0 <= i < e.words.len() && e.words[i] == other;
            assert(f.words[i] == other);
        }
    }
    engine::law_removed_word_is_gone(f.words, word);
}

/// A reset clears what is held against a user and nothing of anybody else.
pub proof fn law_reset_clears_one(e: EngineView, npub: Seq<char>, other: Seq<char>, now: u64)
    requires
        moderation_laws::names_member(npub),
        e.users.dom().contains(npub),
        other != npub,
    ensures
        ({
            let f = command::after_command(e, CommandView::Reset(npub), true, now);
            &&& f.record(npub).violations.len() == 0
            &&& f.record(npub).messages.len() == 0
            &&& f.record(npub).msgs_since_join == 0
            &&& f.record(other) == e.record(other)
            &&& f.words == e.words
        }),
{
    reveal_strlit("npub1");
    assert("npub1"@ =~= npub.subrange(0, 5)) by {
        assert(npub.take(5)[0] == 'n');
        assert(npub.take(5) =~= npub.subrange(0, 5));
    }
}

/// The latest violations are shown first, and no more than were asked for.
pub proof fn law_history_is_latest_first(
    lines: Seq<(u64, Seq<char>)>,
    limit: usize,
    shown: Seq<Seq<char>>,
    j: int,
)
    requires
        engine::latest(lines, limit, shown),
        limit > 0,
        0 <= j < lines.len() <= usize::MAX,
        forall|k: int| 0 <= k < lines.len() && k != j ==> (#[trigger] lines[k]).0 < lines[j].0,
    ensures
        shown.len() <= limit,
        shown.len() <= lines.len(),
        shown.len() > 0,
        shown[0] == lines[j].1,
{
    let times = engine::line_times(lines);
    let how = choose|how: Seq<usize>| #[trigger]
        order::sorts(how, times, false) && shown.len() == if limit < lines.len() {
            limit as nat
        } else {
            lines.len()
        } && forall|k: int| 0 <= k < shown.len() ==> #[trigger] shown[k] == lines[how[k] as int].1;
    assert(how.contains(j as usize));
    let at = choose|at: int| 0 <= at < how.len() && how[at] == j as usize;
    if at > 0 {
        order::law_sorted_keys_ascend(how, times, false, 0, at);
        assert(how[0] < times.len());
        assert(times[how[0] as int] == lines[how[0] as int].0 as i128);
        assert(times[j] == lines[j].0 as i128);
        assert(how[0] as int == j);
    }
    assert(shown[0] == lines[how[0] as int].1);
}

/// One who asks for a user's history is shown that of nobody else.
pub proof fn law_history_is_of_one(
    rows: Seq<(Seq<char>, UserView)>,
    npub: Seq<char>,
    other: (Seq<char>, UserView),
)
    requires
        other.0 != npub,
    ensures
        engine::full_history(rows.push(other), Some(npub)) == engine::full_history(rows, Some(npub)),
        engine::full_history(rows.push(other), None).len() == engine::full_history(rows, None).len()
            + other.1.violations.len(),
{
    assert(rows.push(other).drop_last() =~= rows);
}

// ---------------------------------------------------------------------------
// What is said
// ---------------------------------------------------------------------------

/// An announcement names the sender and the rules that were broken; it is made for every warning, and
/// for a kick and a ban that were done.
pub proof fn law_announcement_names_the_sender(
    cfg: AutoModSection,
    npub: Seq<char>,
    v: AutoModVerdict,
    outcome: Sanctioned,
)
    ensures
        enforce::announced(cfg, npub, v, outcome) is Some <==> cfg.announce_actions && (outcome.gap()
            || v.action is Warn || ((v.action is Kick || v.action is Ban) && outcome is Done)),
        enforce::announced(cfg, npub, v, outcome) matches Some(t) ==> text::has_substring(t, npub)
            && text::has_substring(t, enforce::rules_text(v)),
{
    let rules = enforce::rules_text(v);
    if outcome.gap() {
        let head = "⚠️ Detected spam from "@;
        let tail = " (score "@ + number::decimal(v.score as nat) + ") but I lack permission to "@
            + v.action.name() + ". Rules: "@;
        let all = head + npub + " (score "@ + number::decimal(v.score as nat)
            + ") but I lack permission to "@ + v.action.name() + ". Rules: "@ + rules;
        assert(all =~= head + npub + (tail + rules));
        assert(all =~= (head + npub + tail) + rules + Seq::empty());
        text::lemma_substring_between(head, npub, tail + rules);
        text::lemma_substring_between(head + npub + tail, rules, Seq::empty());
    } else if v.action is Warn {
        let (head, mid, tail) = ("🚫 "@, " — message removed for spam ("@, "). Please knock it off."@);
        lemma_named_between(head, npub, mid, rules, tail);
    } else if v.action is Kick {
        lemma_named_between("👢 Kicked "@, npub, " for spam ("@, rules, ")."@);
    } else if v.action is Ban {
        lemma_named_between("🔨 Banned "@, npub, " for spam ("@, rules, ")."@);
    }
}

proof fn lemma_named_between(
    head: Seq<char>,
    a: Seq<char>,
    mid: Seq<char>,
    b: Seq<char>,
    tail: Seq<char>,
)
    ensures
        text::has_substring(head + a + mid + b + tail, a),
        text::has_substring(head + a + mid + b + tail, b),
{
    let all = head + a + mid + b + tail;
    assert(all =~= head + a + (mid + b + tail));
    assert(all =~= (head + a + mid) + b + tail);
    text::lemma_substring_between(head, a, mid + b + tail);
    text::lemma_substring_between(head + a + mid, b, tail);
}

/// What a kick and a ban are called in an announcement is what was done.
pub proof fn law_announcement_tells_the_action(
    cfg: AutoModSection,
    npub: Seq<char>,
    v: AutoModVerdict,
)
    requires
        cfg.announce_actions,
    ensures
        v.action is Kick ==> enforce::announced(cfg, npub, v, Sanctioned::Done) == Some(
            "👢 Kicked "@ + npub + " for spam ("@ + enforce::rules_text(v) + ")."@,
        ),
        v.action is Ban ==> enforce::announced(cfg, npub, v, Sanctioned::Done) == Some(
            "🔨 Banned "@ + npub + " for spam ("@ + enforce::rules_text(v) + ")."@,
        ),
        v.action is Nothing ==> enforce::announced(cfg, npub, v, Sanctioned::Done) is None,
{
}

/// The log holds the first eighty characters of a message, or all of a shorter one.
pub proof fn law_snippet_is_the_start(message: Seq<char>)
    ensures
        enforce::snippet_of(message).len() <= 80,
        enforce::snippet_of(message).is_prefix_of(message),
        message.len() <= 80 ==> enforce::snippet_of(message) == message,
        message.len() > 80 ==> enforce::snippet_of(message).len() == 80,
{
    assert(enforce::snippet_of(message) =~= message.subrange(
        0,
        enforce::snippet_of(message).len() as int,
    ));
}

/// A refusal that speaks of rank, permission or denial is one for want of permission, whatever is
/// said around it and in whatever case.
pub proof fn law_gaps_are_recognized(before: Seq<char>, word: Seq<char>, after: Seq<char>)
    requires
        word == "permission"@ || word == "rank"@ || word == "outrank"@ || word == "denied"@ || word
            == "unauthorized"@ || word == "forbidden"@ || word == "not allowed"@,
    ensures
        forall|err: Seq<char>|
            text::str_lowercase(err) == #[trigger] ((before + word) + after)
                ==> enforce::lacks_permission(err),
{
    text::lemma_substring_between(before, word, after);
}

} // verus!
