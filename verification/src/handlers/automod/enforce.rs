//! What is done about a message that calls for it.

use vstd::prelude::*;
use crate::auth::AuthManager;
use crate::config::AutoModSection;
use crate::handlers::automod;
use crate::handlers::automod::engine;
use crate::handlers::automod::engine::AutoModEngine;
use crate::handlers::automod::{AutoModAction, AutoModVerdict};
use crate::json::{Json, JsonView};
use crate::{auth, json, number, text};

verus! {

/// The action that a message calls for.
pub open spec fn action_on(
    e: engine::EngineView,
    cfg: AutoModSection,
    npub: Seq<char>,
    message: Seq<char>,
    now: u64,
) -> AutoModAction {
    let u = automod::remembered(e.record(npub), cfg, message, now);
    let f = automod::found(u, e.filters(), cfg, message, now);
    automod::final_action(cfg, automod::score_of(cfg, f), u.violations.len())
}

/// Screens a community message: nothing where auto-moderation is off or the sender is exempt; else
/// the message is scanned, and a verdict that calls for action is returned.
pub fn on_message(
    engine: &mut AutoModEngine,
    cfg: &AutoModSection,
    auth: Option<&AuthManager>,
    bot_npub: &str,
    npub: &str,
    community_id: Option<&str>,
    is_admin: bool,
    message: &str,
    now: u64,
) -> (r: Option<AutoModVerdict>)
    ensures
        ({
            let before = old(engine)@;
            if !before.enabled || engine::exempt(
                auth::opt_auth(auth),
                bot_npub@,
                npub@,
                text::opt_str_view(community_id),
                is_admin,
                cfg.strict_mode,
            ) {
                r is None && final(engine)@ == before
            } else {
                &&& final(engine)@ == engine::scanned(before, *cfg, npub@, message@, now)
                &&& match r {
                    Some(v) => engine::verdict_on(before, *cfg, npub@, message@, now, v)
                        && v.action != AutoModAction::Nothing,
                    None => action_on(before, *cfg, npub@, message@, now) == AutoModAction::Nothing,
                }
            }
        }),
{
    if !engine.is_enabled() {
        return None;
    }
    if engine.is_immune(auth, bot_npub, npub, community_id, is_admin, cfg.strict_mode) {
        return None;
    }
    let verdict = engine.check_message(cfg, npub, message, now);
    if verdict.should_act() {
        Some(verdict)
    } else {
        None
    }
}

/// What is to be done about a message.
pub struct Enforcement {
    /// The line for the audit log.
    pub audit: Json,
    /// Save the state.
    pub save: bool,
    /// Anything beyond logging.
    pub enforce: bool,
    /// Delete the message.
    pub delete: bool,
    /// Kick or ban the sender, or nothing.
    pub sanction: AutoModAction,
}

/// The first eighty characters of a message.
pub open spec fn snippet_of(message: Seq<char>) -> Seq<char> {
    if message.len() > 80 {
        message.take(80)
    } else {
        message
    }
}

/// The audit log's line on a verdict.
pub open spec fn audit_entry(
    timestamp: Seq<char>,
    npub: Seq<char>,
    v: AutoModVerdict,
    channel: Seq<char>,
    snippet: Seq<char>,
) -> JsonView {
    JsonView::Object(
        Seq::empty().push(("timestamp"@, JsonView::Text(timestamp))).push(
            ("npub"@, JsonView::Text(npub)),
        ).push(("action"@, JsonView::Text(v.action.name()))).push(
            ("score"@, JsonView::Number(number::decimal(v.score as nat))),
        ).push(("rules"@, json::text_array(text::views(v.rules_triggered@)))).push(
            ("channel"@, JsonView::Text(channel)),
        ).push(("message_snippet"@, JsonView::Text(snippet))).push(
            ("dry_run"@, JsonView::Bool(v.dry_run)),
        ),
    )
}

/// Writes the audit log's line on a verdict.
pub fn write_audit_log(
    timestamp: &str,
    npub: &str,
    verdict: &AutoModVerdict,
    channel: &str,
    snippet: &str,
) -> (r: Json)
    ensures
        r@ == audit_entry(timestamp@, npub@, *verdict, channel@, snippet@),
{
    let mut m: Vec<(String, Json)> = Vec::new();
    proof {
        assert(json::member_views(m@) =~= Seq::empty());
    }
    json::add_member(&mut m, "timestamp", json::string(timestamp));
    json::add_member(&mut m, "npub", json::string(npub));
    json::add_member(&mut m, "action", json::string(verdict.action.as_str()));
    json::add_member(&mut m, "score", json::integer(verdict.score as u64));
    json::add_member(&mut m, "rules", json::texts(&verdict.rules_triggered));
    json::add_member(&mut m, "channel", json::string(channel));
    json::add_member(&mut m, "message_snippet", json::string(snippet));
    json::add_member(&mut m, "dry_run", Json::Bool(verdict.dry_run));
    json::object(m)
}

/// Acts on what a message was found to be. The violation is recorded, and what is to be done is
/// returned, if anything.
pub fn execute_action(
    engine: &mut AutoModEngine,
    cfg: &AutoModSection,
    npub: &str,
    message: &str,
    chat_id: &str,
    verdict: &AutoModVerdict,
    timestamp: &str,
    now: u64,
) -> (r: Option<Enforcement>)
    ensures
        match r {
            None => verdict.action == AutoModAction::Nothing && final(engine)@ == old(engine)@,
            Some(p) => {
                &&& verdict.action != AutoModAction::Nothing
                &&& final(engine)@ == engine::save_noted(
                    engine::recorded(old(engine)@, npub@, *verdict, now),
                    now,
                )
                &&& p.audit@ == audit_entry(
                    timestamp@,
                    npub@,
                    *verdict,
                    chat_id@,
                    snippet_of(message@),
                )
                &&& p.save == engine::save_due(old(engine)@, now)
                &&& p.enforce == !verdict.dry_run
                &&& p.delete == (!verdict.dry_run && cfg.delete_spam_messages)
                &&& p.sanction == if verdict.dry_run || verdict.action == AutoModAction::Warn {
                    AutoModAction::Nothing
                } else {
                    verdict.action
                }
            },
        },
{
    if !verdict.should_act() {
        return None;
    }
    engine.record_violation(npub, verdict, now);
    let n: usize = message.unicode_len();
    let snippet = if n > 80 {
        message.substring_char(0, 80)
    } else {
        message
    };
    proof {
        assert(snippet@ =~= snippet_of(message@));
    }
    let audit = write_audit_log(timestamp, npub, verdict, chat_id, snippet);
    let save = engine.maybe_persist(now);
    let sanction = if verdict.dry_run || verdict.action == AutoModAction::Warn {
        AutoModAction::Nothing
    } else {
        verdict.action
    };
    Some(
        Enforcement {
            audit,
            save,
            enforce: !verdict.dry_run,
            delete: !verdict.dry_run && cfg.delete_spam_messages,
            sanction,
        },
    )
}

/// How a kick or a ban went.
pub enum Sanctioned {
    /// It was done, or there was none to do.
    Done,
    /// The message came from no community.
    NoCommunity,
    /// The sender owns the community.
    IsOwner,
    /// The service refused it, in these words.
    Failed(String),
}

/// Whether the words of an error speak of missing permission.
pub open spec fn lacks_permission(err: Seq<char>) -> bool {
    let e = text::str_lowercase(err);
    ||| text::has_substring(e, "permission"@)
    ||| text::has_substring(e, "outrank"@)
    ||| text::has_substring(e, "rank"@)
    ||| text::has_substring(e, "denied"@)
    ||| text::has_substring(e, "unauthorized"@)
    ||| text::has_substring(e, "forbidden"@)
    ||| text::has_substring(e, "not allowed"@)
}

/// Whether the words of an error speak of missing permission.
pub fn is_permission_error(err: &str) -> (r: bool)
    ensures
        r == lacks_permission(err@),
{
    let low = text::to_lowercase(err);
    let e = low.as_str();
    text::contains(e, "permission") || text::contains(e, "outrank") || text::contains(e, "rank")
        || text::contains(e, "denied") || text::contains(e, "unauthorized") || text::contains(
        e,
        "forbidden",
    ) || text::contains(e, "not allowed")
}

impl Sanctioned {
    /// Whether permission was missing.
    pub open spec fn gap(&self) -> bool {
        match self {
            Sanctioned::Failed(e) => lacks_permission(e@),
            _ => false,
        }
    }

    /// Whether permission was missing.
    pub fn is_gap(&self) -> (r: bool)
        ensures
            r == self.gap(),
    {
        match self {
            Sanctioned::Failed(e) => is_permission_error(e.as_str()),
            _ => false,
        }
    }
}

/// The rules of a verdict, with commas between them.
pub open spec fn rules_text(v: AutoModVerdict) -> Seq<char> {
    text::joined(text::views(v.rules_triggered@), ","@)
}

/// What the channel is told, if anything.
pub open spec fn announced(
    cfg: AutoModSection,
    npub: Seq<char>,
    v: AutoModVerdict,
    outcome: Sanctioned,
) -> Option<Seq<char>> {
    if !cfg.announce_actions {
        None
    } else if outcome.gap() {
        Some(
            "⚠️ Detected spam from "@ + npub + " (score "@ + number::decimal(v.score as nat)
                + ") but I lack permission to "@ + v.action.name() + ". Rules: "@ + rules_text(v),
        )
    } else {
        match v.action {
            AutoModAction::Warn => Some(
                "🚫 "@ + npub + " — message removed for spam ("@ + rules_text(v)
                    + "). Please knock it off."@,
            ),
            AutoModAction::Kick if outcome is Done => Some(
                "👢 Kicked "@ + npub + " for spam ("@ + rules_text(v) + ")."@,
            ),
            AutoModAction::Ban if outcome is Done => Some(
                "🔨 Banned "@ + npub + " for spam ("@ + rules_text(v) + ")."@,
            ),
            _ => None,
        }
    }
}

/// What to tell the channel about an enforced verdict, if anything.
pub fn announcement(
    cfg: &AutoModSection,
    npub: &str,
    verdict: &AutoModVerdict,
    outcome: &Sanctioned,
) -> (r: Option<String>)
    ensures
        text::opt_view(r) == announced(*cfg, npub@, *verdict, *outcome),
{
    if !cfg.announce_actions {
        return None;
    }
    let rules = text::join(&verdict.rules_triggered, ",");
    if outcome.is_gap() {
        let mut out = text::cat3("⚠️ Detected spam from ", npub, " (score ");
        out.push_str(number::show(verdict.score as u64).as_str());
        out.push_str(") but I lack permission to ");
        out.push_str(verdict.action.as_str());
        out.push_str(". Rules: ");
        out.push_str(rules.as_str());
        return Some(out);
    }
    let done = match outcome {
        Sanctioned::Done => true,
        _ => false,
    };
    match verdict.action {
        AutoModAction::Warn => Some(
            text::cat5(
                "🚫 ",
                npub,
                " — message removed for spam (",
                rules.as_str(),
                "). Please knock it off.",
            ),
        ),
        AutoModAction::Kick if done => Some(
            text::cat5("👢 Kicked ", npub, " for spam (", rules.as_str(), ")."),
        ),
        AutoModAction::Ban if done => Some(
            text::cat5("🔨 Banned ", npub, " for spam (", rules.as_str(), ")."),
        ),
        _ => None,
    }
}

/// What the owner is told, if anything: of every ban and of missing permission.
pub open spec fn owner_told(
    cfg: AutoModSection,
    npub: Seq<char>,
    v: AutoModVerdict,
    chat_id: Seq<char>,
    outcome: Sanctioned,
) -> Option<Seq<char>> {
    if !cfg.announce_dm_owner {
        None
    } else if outcome.gap() {
        Some(
            "⚠️ auto-mod wanted to "@ + v.action.name() + " "@ + npub + " for spam (score "@
                + number::decimal(v.score as nat) + ", "@ + rules_text(v)
                + ") but I lack permission in community "@ + chat_id + "."@,
        )
    } else if v.action == AutoModAction::Ban {
        Some(
            "🔨 auto-mod banned "@ + npub + " for spam (score "@ + number::decimal(
                v.score as nat,
            ) + ", rules: "@ + rules_text(v) + ") in "@ + chat_id + "."@,
        )
    } else {
        None
    }
}

/// What to tell the owner about an enforced verdict, if anything.
pub fn owner_message(
    cfg: &AutoModSection,
    npub: &str,
    verdict: &AutoModVerdict,
    chat_id: &str,
    outcome: &Sanctioned,
) -> (r: Option<String>)
    ensures
        text::opt_view(r) == owner_told(*cfg, npub@, *verdict, chat_id@, *outcome),
{
    if !cfg.announce_dm_owner {
        return None;
    }
    let rules = text::join(&verdict.rules_triggered, ",");
    let score = number::show(verdict.score as u64);
    if outcome.is_gap() {
        let mut out = text::cat5(
            "⚠️ auto-mod wanted to ",
            verdict.action.as_str(),
            " ",
            npub,
            " for spam (score ",
        );
        out.push_str(score.as_str());
        out.push_str(", ");
        out.push_str(rules.as_str());
        out.push_str(") but I lack permission in community ");
        out.push_str(chat_id);
        out.push_str(".");
        return Some(out);
    }
    if verdict.action == AutoModAction::Ban {
        let mut out = text::cat3("🔨 auto-mod banned ", npub, " for spam (score ");
        out.push_str(score.as_str());
        out.push_str(", rules: ");
        out.push_str(rules.as_str());
        out.push_str(") in ");
        out.push_str(chat_id);
        out.push_str(".");
        return Some(out);
    }
    None
}

/// A sanction that was not done for any reason but missing permission is not announced.
pub proof fn law_failed_sanction_is_silent(
    cfg: AutoModSection,
    npub: Seq<char>,
    v: AutoModVerdict,
    outcome: Sanctioned,
)
    requires
        outcome !is Done,
        !outcome.gap(),
        v.action == AutoModAction::Kick || v.action == AutoModAction::Ban,
    ensures
        announced(cfg, npub, v, outcome) is None,
{
}

/// An owner who asked for it is told of every verdict to ban, however it turned out, of missing
/// permission, and of nothing else. An owner who did not is told nothing.
pub proof fn law_owner_hears_of_bans(
    cfg: AutoModSection,
    npub: Seq<char>,
    v: AutoModVerdict,
    chat_id: Seq<char>,
    outcome: Sanctioned,
)
    ensures
        owner_told(cfg, npub, v, chat_id, outcome) is Some <==> cfg.announce_dm_owner && (v.action
            == AutoModAction::Ban || outcome.gap()),
{
}

} // verus!
