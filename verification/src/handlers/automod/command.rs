//! The `!automod` command.

use vstd::prelude::*;
use crate::config::AutoModSection;
use crate::handlers;
use crate::handlers::automod::engine;
use crate::handlers::automod::engine::{AutoModEngine, EngineView};
use crate::{number, text};

verus! {

/// What `!automod` can be asked for.
pub enum AutoModCommand {
    Switch(bool),
    Status,
    AddWord(String),
    RemoveWord(String),
    ListWords,
    WordsUsage,
    AddDomain(String),
    RemoveDomain(String),
    ListDomains,
    DomainsUsage,
    History(Option<String>),
    Reset(String),
    Usage,
}

/// What a command asks for.
pub enum CommandView {
    Switch(bool),
    Status,
    AddWord(Seq<char>),
    RemoveWord(Seq<char>),
    ListWords,
    WordsUsage,
    AddDomain(Seq<char>),
    RemoveDomain(Seq<char>),
    ListDomains,
    DomainsUsage,
    History(Option<Seq<char>>),
    Reset(Seq<char>),
    Usage,
}

impl View for AutoModCommand {
    type V = CommandView;

    open spec fn view(&self) -> CommandView {
        match self {
            AutoModCommand::Switch(on) => CommandView::Switch(*on),
            AutoModCommand::Status => CommandView::Status,
            AutoModCommand::AddWord(w) => CommandView::AddWord(w@),
            AutoModCommand::RemoveWord(w) => CommandView::RemoveWord(w@),
            AutoModCommand::ListWords => CommandView::ListWords,
            AutoModCommand::WordsUsage => CommandView::WordsUsage,
            AutoModCommand::AddDomain(d) => CommandView::AddDomain(d@),
            AutoModCommand::RemoveDomain(d) => CommandView::RemoveDomain(d@),
            AutoModCommand::ListDomains => CommandView::ListDomains,
            AutoModCommand::DomainsUsage => CommandView::DomainsUsage,
            AutoModCommand::History(n) => CommandView::History(text::opt_view(*n)),
            AutoModCommand::Reset(n) => CommandView::Reset(n@),
            AutoModCommand::Usage => CommandView::Usage,
        }
    }
}

/// What follows the second whitespace character of the arguments, trimmed.
pub open spec fn phrase_of(args: Seq<char>) -> Seq<char> {
    match text::tail_words(args) {
        Some(t) => match text::tail_words(t) {
            Some(u) => text::trimmed(u),
            None => text::trimmed(""@),
        },
        None => text::trimmed(""@),
    }
}

/// Whether a word asks for something to be removed.
pub open spec fn asks_removal(word: Seq<char>) -> bool {
    word == "remove"@ || word == "rm"@
}

/// What the arguments ask for.
pub open spec fn command_of(args: Seq<char>) -> CommandView {
    let parts = text::words(args);
    let sub = text::entry_at(parts, 0);
    let verb = text::entry_at(parts, 1);
    if sub == "on"@ || sub == "off"@ {
        CommandView::Switch(sub == "on"@)
    } else if sub == "status"@ || sub == ""@ {
        CommandView::Status
    } else if sub == "words"@ {
        if verb == "add"@ {
            CommandView::AddWord(phrase_of(args))
        } else if asks_removal(verb) {
            CommandView::RemoveWord(phrase_of(args))
        } else if verb == "list"@ || verb == ""@ {
            CommandView::ListWords
        } else {
            CommandView::WordsUsage
        }
    } else if sub == "allowlist"@ {
        if verb == "add"@ {
            CommandView::AddDomain(text::entry_at(parts, 2))
        } else if asks_removal(verb) {
            CommandView::RemoveDomain(text::entry_at(parts, 2))
        } else if verb == "list"@ || verb == ""@ {
            CommandView::ListDomains
        } else {
            CommandView::DomainsUsage
        }
    } else if sub == "history"@ {
        CommandView::History(
            if handlers::plain_npub(verb).len() > 0 {
                Some(handlers::plain_npub(verb))
            } else {
                None
            },
        )
    } else if sub == "reset"@ {
        CommandView::Reset(handlers::plain_npub(verb))
    } else {
        CommandView::Usage
    }
}

fn phrase(args: &str) -> (r: &str)
    ensures
        r@ == phrase_of(args@),
{
    match text::split_word(args).1 {
        Some(t) => match text::split_word(t).1 {
            Some(u) => text::trim(u),
            None => text::trim(""),
        },
        None => text::trim(""),
    }
}

fn is_removal(word: &str) -> (r: bool)
    ensures
        r == asks_removal(word@),
{
    text::same(word, "remove") || text::same(word, "rm")
}

/// Reads the arguments of `!automod`.
pub fn parse_command(args: &str) -> (r: AutoModCommand)
    ensures
        r@ == command_of(args@),
{
    let parts = text::split_words(args);
    let sub = text::list_get(&parts, 0);
    let verb = text::list_get(&parts, 1);
    if text::same(sub, "on") {
        return AutoModCommand::Switch(true);
    }
    if text::same(sub, "off") {
        return AutoModCommand::Switch(false);
    }
    if text::same(sub, "status") || text::same(sub, "") {
        return AutoModCommand::Status;
    }
    if text::same(sub, "words") {
        return if text::same(verb, "add") {
            AutoModCommand::AddWord(phrase(args).to_owned())
        } else if is_removal(verb) {
            AutoModCommand::RemoveWord(phrase(args).to_owned())
        } else if text::same(verb, "list") || text::same(verb, "") {
            AutoModCommand::ListWords
        } else {
            AutoModCommand::WordsUsage
        };
    }
    if text::same(sub, "allowlist") {
        return if text::same(verb, "add") {
            AutoModCommand::AddDomain(text::list_get(&parts, 2).to_owned())
        } else if is_removal(verb) {
            AutoModCommand::RemoveDomain(text::list_get(&parts, 2).to_owned())
        } else if text::same(verb, "list") || text::same(verb, "") {
            AutoModCommand::ListDomains
        } else {
            AutoModCommand::DomainsUsage
        };
    }
    if text::same(sub, "history") {
        let who = handlers::normalize_npub(verb);
        return AutoModCommand::History(
            if who.as_str().is_empty() {
                None
            } else {
                Some(who)
            },
        );
    }
    if text::same(sub, "reset") {
        return AutoModCommand::Reset(handlers::normalize_npub(verb));
    }
    AutoModCommand::Usage
}

/// The status without its last parts.
pub open spec fn status_head(e: EngineView, cfg: AutoModSection, now: u64) -> Seq<char> {
    "🛡️ Auto-mod status: "@ + (if e.enabled {
        "ENABLED ✅"@
    } else {
        "disabled ❌"@
    }) + (if e.enabled && e.dry(cfg, now) {
        " (DRY-RUN)"@
    } else {
        ""@
    }) + "\n• strict_mode: "@ + text::bool_text(cfg.strict_mode) + "\n• burst: "@
        + number::decimal(cfg.max_messages as nat) + " msgs / "@
        + number::decimal(cfg.burst_window_secs as nat) + "s\n• duplicates: "@
        + number::decimal(cfg.max_duplicates as nat) + " / "@
        + number::decimal(cfg.dedupe_window_secs as nat) + "s\n"@
}

/// The thresholds in the status.
pub open spec fn status_limits(cfg: AutoModSection) -> Seq<char> {
    "• max_links: "@ + number::decimal(cfg.max_links as nat) + " (action: "@ + cfg.link_action@
        + "), max_mentions: "@ + number::decimal(cfg.max_mentions as nat)
        + "\n• new-user grace: "@ + number::decimal(cfg.new_user_max_msgs as nat) + " msgs / "@
        + number::decimal(cfg.new_user_grace_secs as nat) + "s\n• thresholds warn/kick/ban: "@
        + number::decimal(cfg.warn_threshold as nat) + "/"@
        + number::decimal(cfg.kick_threshold as nat) + "/"@
        + number::decimal(cfg.ban_threshold as nat) + "\n• escalation: kick after "@
        + number::decimal(cfg.escalation_kick_after as nat) + ", ban after "@
        + number::decimal(cfg.escalation_ban_after as nat) + " (window "@
        + number::decimal(cfg.escalation_window_secs as nat) + "s)\n"@
}

/// The counts in the status.
pub open spec fn status_counts(e: EngineView) -> Seq<char> {
    "• banned words: "@ + number::decimal(e.words.len()) + ", regex patterns: "@
        + number::decimal(e.patterns.len()) + ", allowlist domains: "@
        + number::decimal(e.allowlist.len()) + "\n• tracked users: "@
        + number::decimal(e.users.dom().len()) + "\n• actions taken — warns: "@
        + number::decimal(e.total_warns as nat) + ", kicks: "@
        + number::decimal(e.total_kicks as nat) + ", bans: "@
        + number::decimal(e.total_bans as nat)
}

fn show_head(engine: &AutoModEngine, cfg: &AutoModSection, now: u64) -> (r: String)
    ensures
        r@ == status_head(engine@, *cfg, now),
{
    let state = if engine.is_enabled() {
        "ENABLED ✅"
    } else {
        "disabled ❌"
    };
    let dry = if engine.is_enabled() && engine.in_dry_run(cfg, now) {
        " (DRY-RUN)"
    } else {
        ""
    };
    let mut out = text::cat7(
        "🛡️ Auto-mod status: ",
        state,
        dry,
        "\n• strict_mode: ",
        text::show_bool(cfg.strict_mode),
        "\n• burst: ",
        number::show(cfg.max_messages as u64).as_str(),
    );
    out.push_str(" msgs / ");
    out.push_str(number::show(cfg.burst_window_secs as u64).as_str());
    out.push_str("s\n• duplicates: ");
    out.push_str(number::show(cfg.max_duplicates as u64).as_str());
    out.push_str(" / ");
    out.push_str(number::show(cfg.dedupe_window_secs as u64).as_str());
    out.push_str("s\n");
    out
}

fn show_limits(cfg: &AutoModSection) -> (r: String)
    ensures
        r@ == status_limits(*cfg),
{
    let mut out = text::cat7(
        "• max_links: ",
        number::show(cfg.max_links as u64).as_str(),
        " (action: ",
        cfg.link_action.as_str(),
        "), max_mentions: ",
        number::show(cfg.max_mentions as u64).as_str(),
        "\n• new-user grace: ",
    );
    out.push_str(number::show(cfg.new_user_max_msgs as u64).as_str());
    out.push_str(" msgs / ");
    out.push_str(number::show(cfg.new_user_grace_secs as u64).as_str());
    out.push_str("s\n• thresholds warn/kick/ban: ");
    out.push_str(number::show(cfg.warn_threshold as u64).as_str());
    out.push_str("/");
    out.push_str(number::show(cfg.kick_threshold as u64).as_str());
    out.push_str("/");
    out.push_str(number::show(cfg.ban_threshold as u64).as_str());
    out.push_str("\n• escalation: kick after ");
    out.push_str(number::show(cfg.escalation_kick_after as u64).as_str());
    out.push_str(", ban after ");
    out.push_str(number::show(cfg.escalation_ban_after as u64).as_str());
    out.push_str(" (window ");
    out.push_str(number::show(cfg.escalation_window_secs as u64).as_str());
    out.push_str("s)\n");
    out
}

fn show_counts(engine: &AutoModEngine) -> (r: String)
    ensures
        r@ == status_counts(engine@),
{
    let words = engine.list_words();
    let patterns = engine.list_patterns();
    let allow = engine.list_allowlist();
    let ghost sizes = (text::views(words@), text::views(patterns@), text::views(allow@));
    proof {
        assert(sizes.0.len() == words.len());
        assert(sizes.1.len() == patterns.len());
        assert(sizes.2.len() == allow.len());
    }
    let (seen, warns, kicks, bans) = engine.stats();
    let mut out = text::cat7(
        "• banned words: ",
        number::show_size(words.len()).as_str(),
        ", regex patterns: ",
        number::show_size(patterns.len()).as_str(),
        ", allowlist domains: ",
        number::show_size(allow.len()).as_str(),
        "\n• tracked users: ",
    );
    out.push_str(number::show_size(seen).as_str());
    out.push_str("\n• actions taken — warns: ");
    out.push_str(number::show(warns).as_str());
    out.push_str(", kicks: ");
    out.push_str(number::show(kicks).as_str());
    out.push_str(", bans: ");
    out.push_str(number::show(bans).as_str());
    out
}

/// The reply to a switch, once it was made.
pub open spec fn switch_reply(e: EngineView, cfg: AutoModSection, on: bool, now: u64) -> Seq<char> {
    "🛡️ Auto-mod turned "@ + (if on {
        "ON ✅"@
    } else {
        "OFF ❌"@
    }) + (if on && e.dry(cfg, now) {
        "\n⚠️ Running in DRY-RUN (log-only) for "@ + number::decimal(cfg.dry_run_minutes as nat)
            + " min after turning on — no kicks/bans yet."@
    } else {
        ""@
    })
}

fn show_switch(engine: &AutoModEngine, cfg: &AutoModSection, on: bool, now: u64) -> (r: String)
    ensures
        r@ == switch_reply(engine@, *cfg, on, now),
{
    let state = if on {
        "ON ✅"
    } else {
        "OFF ❌"
    };
    let extra = if on && engine.in_dry_run(cfg, now) {
        text::cat3(
            "\n⚠️ Running in DRY-RUN (log-only) for ",
            number::show(cfg.dry_run_minutes).as_str(),
            " min after turning on — no kicks/bans yet.",
        )
    } else {
        "".to_owned()
    };
    text::cat3("🛡️ Auto-mod turned ", state, extra.as_str())
}

/// A titled list with bullets, or nothing for an empty one.
pub open spec fn section(title: Seq<char>, list: Seq<Seq<char>>) -> Seq<char> {
    if list.len() == 0 {
        Seq::empty()
    } else {
        title + number::decimal(list.len()) + "):\n"@ + text::bulleted(list)
    }
}

fn show_section(title: &str, list: &Vec<String>) -> (r: String)
    ensures
        r@ == section(title@, text::views(list@)),
{
    let ghost all = text::views(list@);
    proof {
        assert(all.len() == list.len());
    }
    if list.len() == 0 {
        String::new()
    } else {
        text::cat4(
            title,
            number::show_size(list.len()).as_str(),
            "):\n",
            text::bullets(list).as_str(),
        )
    }
}

/// The banned words and patterns, for people to read.
pub open spec fn words_listing(e: EngineView) -> Seq<char> {
    if e.words.len() == 0 && e.patterns.len() == 0 {
        "📝 No banned words or patterns configured."@
    } else {
        text::trimmed(
            "📝 Banned filters:\n"@ + section("Words ("@, e.words) + section(
                "Regex patterns ("@,
                e.patterns,
            ),
        )
    }
}

/// The domains that links may lead to, for people to read.
pub open spec fn domains_listing(e: EngineView) -> Seq<char> {
    if e.allowlist.len() == 0 {
        "🔗 Link allowlist is empty."@
    } else {
        text::trimmed(section("🔗 Allowlisted domains ("@, e.allowlist))
    }
}

fn show_words(engine: &AutoModEngine) -> (r: String)
    ensures
        r@ == words_listing(engine@),
{
    let words = engine.list_words();
    let patterns = engine.list_patterns();
    let ghost sizes = (text::views(words@), text::views(patterns@));
    proof {
        assert(sizes.0.len() == words.len());
        assert(sizes.1.len() == patterns.len());
    }
    if words.len() == 0 && patterns.len() == 0 {
        return "📝 No banned words or patterns configured.".to_owned();
    }
    let all = text::cat3(
        "📝 Banned filters:\n",
        show_section("Words (", &words).as_str(),
        show_section("Regex patterns (", &patterns).as_str(),
    );
    text::trim(all.as_str()).to_owned()
}

fn show_domains(engine: &AutoModEngine) -> (r: String)
    ensures
        r@ == domains_listing(engine@),
{
    let allow = engine.list_allowlist();
    let ghost all = text::views(allow@);
    proof {
        assert(all.len() == allow.len());
    }
    if allow.len() == 0 {
        return "🔗 Link allowlist is empty.".to_owned();
    }
    text::trim(show_section("🔗 Allowlisted domains (", &allow).as_str()).to_owned()
}

/// Whether a command changes something, which only the owner may.
pub open spec fn owner_only(cmd: CommandView) -> bool {
    match cmd {
        CommandView::Switch(_) => true,
        CommandView::AddWord(_) => true,
        CommandView::RemoveWord(_) => true,
        CommandView::AddDomain(_) => true,
        CommandView::RemoveDomain(_) => true,
        CommandView::Reset(_) => true,
        _ => false,
    }
}

/// Whether a word can be banned: it is not empty, and not banned yet.
pub open spec fn word_is_new(e: EngineView, word: Seq<char>) -> bool {
    engine::entry(word).len() > 0 && !e.words.contains(engine::entry(word))
}

/// Whether a domain can be allowed: it is not empty, and not allowed yet.
pub open spec fn domain_is_new(e: EngineView, domain: Seq<char>) -> bool {
    engine::entry(domain).len() > 0 && !engine::lowered(e.allowlist).contains(engine::entry(domain))
}

/// Whether anything is remembered of what a user did.
pub open spec fn has_history(e: EngineView, npub: Seq<char>) -> bool {
    e.record(npub).violations.len() > 0 || e.record(npub).messages.len() > 0
}

/// What a command that only the owner may give makes of the engine.
pub open spec fn changed(e: EngineView, cmd: CommandView) -> EngineView {
    match cmd {
        CommandView::AddWord(w) => if w.len() > 0 && word_is_new(e, w) {
            EngineView { words: e.words.push(engine::entry(w)), ..e }
        } else {
            e
        },
        CommandView::RemoveWord(w) => if w.len() > 0 {
            EngineView { words: engine::without_word(e.words, engine::entry(w)), ..e }
        } else {
            e
        },
        CommandView::AddDomain(d) => if text::trimmed(d).len() > 0 && domain_is_new(
            e,
            text::trimmed(d),
        ) {
            EngineView { allowlist: e.allowlist.push(engine::entry(text::trimmed(d))), ..e }
        } else {
            e
        },
        CommandView::RemoveDomain(d) => if text::trimmed(d).len() > 0 {
            EngineView {
                allowlist: engine::without_domain(e.allowlist, engine::entry(text::trimmed(d))),
                ..e
            }
        } else {
            e
        },
        CommandView::Reset(n) => if "npub1"@.is_prefix_of(n) && e.users.dom().contains(n) {
            e.with_record(
                n,
                handlers::automod::UserView {
                    messages: Seq::empty(),
                    violations: Seq::empty(),
                    msgs_since_join: 0,
                    ..e.record(n)
                },
            )
        } else {
            e
        },
        _ => e,
    }
}

/// The engine after a command.
pub open spec fn after_command(
    e: EngineView,
    cmd: CommandView,
    is_owner: bool,
    now: u64,
) -> EngineView {
    if is_owner {
        match cmd {
            CommandView::Switch(on) => e.switched(on, now),
            _ => changed(e, cmd),
        }
    } else {
        e
    }
}

/// The reply to every command but `history`.
pub open spec fn reply_to(
    e: EngineView,
    cfg: AutoModSection,
    cmd: CommandView,
    is_owner: bool,
    now: u64,
) -> Seq<char> {
    if owner_only(cmd) && !is_owner {
        "⛔ Owner only."@
    } else {
        match cmd {
            CommandView::Switch(on) => switch_reply(e.switched(on, now), cfg, on, now),
            CommandView::Status => status_head(e, cfg, now) + status_limits(cfg) + status_counts(e),
            CommandView::AddWord(w) => if w.len() == 0 {
                "Usage: !automod words add <word or phrase>"@
            } else if word_is_new(e, w) {
                "✅ Added banned word: "@ + text::str_quoted(text::str_lowercase(w))
            } else {
                "ℹ️ That word is already banned (or empty)."@
            },
            CommandView::RemoveWord(w) => if w.len() == 0 {
                "Usage: !automod words remove <word or phrase>"@
            } else if changed(e, cmd).words.len() != e.words.len() {
                "✅ Removed banned word: "@ + text::str_quoted(text::str_lowercase(w))
            } else {
                "ℹ️ That word wasn't in the banned list."@
            },
            CommandView::ListWords => words_listing(e),
            CommandView::WordsUsage => "Usage: !automod words <add|remove|list> [word]"@,
            CommandView::AddDomain(d) => if text::trimmed(d).len() == 0 {
                "Usage: !automod allowlist add <domain>"@
            } else if domain_is_new(e, text::trimmed(d)) {
                "✅ Allowlisted domain: "@ + text::str_lowercase(text::trimmed(d))
            } else {
                "ℹ️ That domain is already allowlisted (or empty)."@
            },
            CommandView::RemoveDomain(d) => if text::trimmed(d).len() == 0 {
                "Usage: !automod allowlist remove <domain>"@
            } else if changed(e, cmd).allowlist.len() != e.allowlist.len() {
                "✅ Removed allowlist domain: "@ + text::str_lowercase(text::trimmed(d))
            } else {
                "ℹ️ That domain wasn't allowlisted."@
            },
            CommandView::ListDomains => domains_listing(e),
            CommandView::DomainsUsage => "Usage: !automod allowlist <add|remove|list> [domain]"@,
            CommandView::History(_) => ""@,
            CommandView::Reset(n) => if !"npub1"@.is_prefix_of(n) {
                "Usage: !automod reset <npub>"@
            } else if has_history(e, n) {
                "✅ Reset violation history for "@ + n + "."@
            } else {
                "ℹ️ No tracked history for "@ + n + "."@
            },
            CommandView::Usage => "Usage: !automod <on|off|status|words|allowlist|history|reset>\n• !automod on/off — toggle (owner)\n• !automod status — config + stats\n• !automod words <add|remove|list> [word] (owner to modify)\n• !automod allowlist <add|remove|list> [domain] (owner to modify)\n• !automod history [npub] — recent actions\n• !automod reset <npub> — clear a user's history (owner)"@,
        }
    }
}

/// The reply to `history`, given the lines it shows.
pub open spec fn history_reply(npub: Option<Seq<char>>, shown: Seq<Seq<char>>) -> Seq<char> {
    if shown.len() == 0 {
        "📋 No auto-mod actions on record."@
    } else {
        (match npub {
            Some(n) => "📋 Recent auto-mod actions for "@ + n + ":"@,
            None => "📋 Recent auto-mod actions:"@,
        }) + "\n"@ + text::joined(text::prefixed(shown, "  • "@), "\n"@)
    }
}

fn show_history(engine: &AutoModEngine, npub: &Option<String>) -> (r: String)
    requires
        engine::names_shorten(engine@.users, text::opt_view(*npub)),
    ensures
        exists|shown: Seq<Seq<char>>| #[trigger]
            engine::shows_history(engine@.users, text::opt_view(*npub), 15, shown) && r@ == history_reply(text::opt_view(*npub), shown),
{
    let who: Option<&str> = match npub {
        Some(n) => Some(n.as_str()),
        None => None,
    };
    proof {
        assert(text::opt_str_view(who) == text::opt_view(*npub));
    }
    let entries = engine.history(who, 15);
    let ghost shown = text::views(entries@);
    proof {
        assert(shown.len() == entries.len());
    }
    if entries.len() == 0 {
        return "📋 No auto-mod actions on record.".to_owned();
    }
    let header = match npub {
        Some(n) => text::cat3("📋 Recent auto-mod actions for ", n.as_str(), ":"),
        None => "📋 Recent auto-mod actions:".to_owned(),
    };
    let body = text::join(&text::prefix_all(&entries, "  • "), "\n");
    text::cat3(header.as_str(), "\n", body.as_str())
}

fn add_word_reply(engine: &mut AutoModEngine, word: &str) -> (r: String)
    ensures
        final(engine)@ == changed(old(engine)@, CommandView::AddWord(word@)),
        forall|cfg: AutoModSection, now: u64|
            r@ == #[trigger] reply_to(
                old(engine)@,
                cfg,
                CommandView::AddWord(word@),
                true,
                now,
            ),
{
    if word.is_empty() {
        "Usage: !automod words add <word or phrase>".to_owned()
    } else if engine.add_word(word) {
        text::cat2(
            "✅ Added banned word: ",
            text::quote(text::to_lowercase(word).as_str()).as_str(),
        )
    } else {
        "ℹ️ That word is already banned (or empty).".to_owned()
    }
}

fn remove_word_reply(engine: &mut AutoModEngine, word: &str) -> (r: String)
    ensures
        final(engine)@ == changed(old(engine)@, CommandView::RemoveWord(word@)),
        forall|cfg: AutoModSection, now: u64|
            r@ == #[trigger] reply_to(
                old(engine)@,
                cfg,
                CommandView::RemoveWord(word@),
                true,
                now,
            ),
{
    if word.is_empty() {
        "Usage: !automod words remove <word or phrase>".to_owned()
    } else if engine.remove_word(word) {
        text::cat2(
            "✅ Removed banned word: ",
            text::quote(text::to_lowercase(word).as_str()).as_str(),
        )
    } else {
        "ℹ️ That word wasn't in the banned list.".to_owned()
    }
}

fn add_domain_reply(engine: &mut AutoModEngine, arg: &str) -> (r: String)
    ensures
        final(engine)@ == changed(old(engine)@, CommandView::AddDomain(arg@)),
        forall|cfg: AutoModSection, now: u64|
            r@ == #[trigger] reply_to(
                old(engine)@,
                cfg,
                CommandView::AddDomain(arg@),
                true,
                now,
            ),
{
    let domain = text::trim(arg);
    if domain.is_empty() {
        "Usage: !automod allowlist add <domain>".to_owned()
    } else if engine.add_allowlist(domain) {
        text::cat2("✅ Allowlisted domain: ", text::to_lowercase(domain).as_str())
    } else {
        "ℹ️ That domain is already allowlisted (or empty).".to_owned()
    }
}

fn remove_domain_reply(engine: &mut AutoModEngine, arg: &str) -> (r: String)
    ensures
        final(engine)@ == changed(old(engine)@, CommandView::RemoveDomain(arg@)),
        forall|cfg: AutoModSection, now: u64|
            r@ == #[trigger] reply_to(
                old(engine)@,
                cfg,
                CommandView::RemoveDomain(arg@),
                true,
                now,
            ),
{
    let domain = text::trim(arg);
    if domain.is_empty() {
        "Usage: !automod allowlist remove <domain>".to_owned()
    } else if engine.remove_allowlist(domain) {
        text::cat2("✅ Removed allowlist domain: ", text::to_lowercase(domain).as_str())
    } else {
        "ℹ️ That domain wasn't allowlisted.".to_owned()
    }
}

fn reset_reply(engine: &mut AutoModEngine, target: &str) -> (r: (String, bool))
    ensures
        final(engine)@ == changed(old(engine)@, CommandView::Reset(target@)),
        forall|cfg: AutoModSection, now: u64|
            r.0@ == #[trigger] reply_to(
                old(engine)@,
                cfg,
                CommandView::Reset(target@),
                true,
                now,
            ),
        r.1 == ("npub1"@.is_prefix_of(target@) && has_history(old(engine)@, target@)),
{
    if !text::starts_with(target, "npub1") {
        ("Usage: !automod reset <npub>".to_owned(), false)
    } else if engine.reset_user(target) {
        (text::cat3("✅ Reset violation history for ", target, "."), true)
    } else {
        (text::cat3("ℹ️ No tracked history for ", target, "."), false)
    }
}

/// Carries out a command: the reply, and whether the state is to be saved.
pub fn run_command(
    engine: &mut AutoModEngine,
    cfg: &AutoModSection,
    cmd: &AutoModCommand,
    is_owner: bool,
    now: u64,
) -> (r: (String, bool))
    requires
        match cmd@ {
            CommandView::History(n) => engine::names_shorten(old(engine)@.users, n),
            _ => true,
        },
    ensures
        final(engine)@ == after_command(old(engine)@, cmd@, is_owner, now),
        match cmd@ {
            CommandView::History(n) => exists|shown: Seq<Seq<char>>| #[trigger]
                engine::shows_history(old(engine)@.users, n, 15, shown) && r.0@ == history_reply(n, shown),
            _ => r.0@ == reply_to(old(engine)@, *cfg, cmd@, is_owner, now),
        },
        r.1 == match cmd@ {
            CommandView::Reset(n) => is_owner && "npub1"@.is_prefix_of(n) && has_history(
                old(engine)@,
                n,
            ),
            _ => false,
        },
{
    match cmd {
        AutoModCommand::Switch(on) => {
            if !is_owner {
                return ("⛔ Owner only.".to_owned(), false);
            }
            engine.set_enabled(*on, now);
            (show_switch(engine, cfg, *on, now), false)
        },
        AutoModCommand::Status => (
            text::cat3(
                show_head(engine, cfg, now).as_str(),
                show_limits(cfg).as_str(),
                show_counts(engine).as_str(),
            ),
            false,
        ),
        AutoModCommand::AddWord(w) => {
            if !is_owner {
                return ("⛔ Owner only.".to_owned(), false);
            }
            (add_word_reply(engine, w.as_str()), false)
        },
        AutoModCommand::RemoveWord(w) => {
            if !is_owner {
                return ("⛔ Owner only.".to_owned(), false);
            }
            (remove_word_reply(engine, w.as_str()), false)
        },
        AutoModCommand::ListWords => (show_words(engine), false),
        AutoModCommand::WordsUsage => (
            "Usage: !automod words <add|remove|list> [word]".to_owned(),
            false,
        ),
        AutoModCommand::AddDomain(d) => {
            if !is_owner {
                return ("⛔ Owner only.".to_owned(), false);
            }
            (add_domain_reply(engine, d.as_str()), false)
        },
        AutoModCommand::RemoveDomain(d) => {
            if !is_owner {
                return ("⛔ Owner only.".to_owned(), false);
            }
            (remove_domain_reply(engine, d.as_str()), false)
        },
        AutoModCommand::ListDomains => (show_domains(engine), false),
        AutoModCommand::DomainsUsage => (
            "Usage: !automod allowlist <add|remove|list> [domain]".to_owned(),
            false,
        ),
        AutoModCommand::History(n) => (show_history(engine, n), false),
        AutoModCommand::Reset(n) => {
            if !is_owner {
                return ("⛔ Owner only.".to_owned(), false);
            }
            reset_reply(engine, n.as_str())
        },
        AutoModCommand::Usage => (
            "Usage: !automod <on|off|status|words|allowlist|history|reset>\n• !automod on/off — toggle (owner)\n• !automod status — config + stats\n• !automod words <add|remove|list> [word] (owner to modify)\n• !automod allowlist <add|remove|list> [domain] (owner to modify)\n• !automod history [npub] — recent actions\n• !automod reset <npub> — clear a user's history (owner)".to_owned(),
            false,
        ),
    }
}

/// Answers `!automod`: the reply, and whether the state is to be saved. There is no answer where
/// the history is asked for and the name of a user in it cannot be shortened.
pub fn automod_command(
    engine: &mut AutoModEngine,
    cfg: &AutoModSection,
    args: &str,
    is_owner: bool,
    now: u64,
) -> (r: Option<(String, bool)>)
    ensures
        final(engine)@ == after_command(old(engine)@, command_of(args@), is_owner, now),
        match (command_of(args@), r) {
            (CommandView::History(n), None) => !engine::names_shorten(old(engine)@.users, n),
            (CommandView::History(n), Some(t)) => {
                &&& engine::names_shorten(old(engine)@.users, n)
                &&& !t.1
                &&& exists|shown: Seq<Seq<char>>| #[trigger]
                    engine::shows_history(old(engine)@.users, n, 15, shown) && t.0@ == history_reply(n, shown)
            },
            (_, None) => false,
            (cmd, Some(t)) => {
                &&& t.0@ == reply_to(old(engine)@, *cfg, cmd, is_owner, now)
                &&& t.1 == match cmd {
                    CommandView::Reset(n) => is_owner && "npub1"@.is_prefix_of(n) && has_history(
                        old(engine)@,
                        n,
                    ),
                    _ => false,
                }
            },
        },
{
    let cmd = parse_command(args);
    if let AutoModCommand::History(npub) = &cmd {
        let who: Option<&str> = match npub {
            Some(n) => Some(n.as_str()),
            None => None,
        };
        proof {
            assert(text::opt_str_view(who) == text::opt_view(*npub));
        }
        if !engine.history_readable(who) {
            return None;
        }
    }
    Some(run_command(engine, cfg, &cmd, is_owner, now))
}

/// Nobody but the owner changes anything.
pub proof fn law_only_owner_changes(e: EngineView, cmd: CommandView, now: u64)
    ensures
        after_command(e, cmd, false, now) == e,
        !owner_only(cmd) ==> after_command(e, cmd, true, now) == e,
{
}

} // verus!
