//! Auto-moderation: every message is scored against a set of rules, and a score above a threshold
//! means a warning, a kick or a ban.
//!
//! Times are Unix seconds.

pub mod command;
pub mod command_laws;
pub mod enforce;
pub mod engine;
pub mod laws;

use vstd::prelude::*;
use crate::config::AutoModSection;
use crate::{clock, pattern, text};

verus! {

// ---------------------------------------------------------------------------
// Actions and verdicts
// ---------------------------------------------------------------------------

/// What auto-moderation does about a message, from nothing upwards.
#[derive(Debug, Clone, Copy, PartialEq, Eq, PartialOrd, Ord, Structural)]
pub enum AutoModAction {
    /// Nothing that the sender sees.
    Nothing,
    /// Delete the message and warn the sender.
    Warn,
    /// Kick the sender.
    Kick,
    /// Ban the sender.
    Ban,
}

impl AutoModAction {
    /// How severe an action is.
    pub open spec fn severity(self) -> int {
        match self {
            AutoModAction::Nothing => 0,
            AutoModAction::Warn => 1,
            AutoModAction::Kick => 2,
            AutoModAction::Ban => 3,
        }
    }

    /// The name of an action.
    pub open spec fn name(self) -> Seq<char> {
        match self {
            AutoModAction::Nothing => "none"@,
            AutoModAction::Warn => "warn"@,
            AutoModAction::Kick => "kick"@,
            AutoModAction::Ban => "ban"@,
        }
    }

    /// The more severe of two actions.
    pub open spec fn at_least(self, other: AutoModAction) -> AutoModAction {
        if self.severity() >= other.severity() {
            self
        } else {
            other
        }
    }

    /// The name of this action.
    pub fn as_str(&self) -> (r: &'static str)
        ensures
            r@ == self.name(),
    {
        match self {
            AutoModAction::Nothing => "none",
            AutoModAction::Warn => "warn",
            AutoModAction::Kick => "kick",
            AutoModAction::Ban => "ban",
        }
    }
}

/// What a message was found to be.
pub struct AutoModVerdict {
    /// The weighted sum of the rules that fired.
    pub score: u32,
    /// The rules that fired.
    pub rules_triggered: Vec<String>,
    /// What is to be done.
    pub action: AutoModAction,
    /// Nothing is enforced yet.
    pub dry_run: bool,
}

impl AutoModVerdict {
    /// Whether there is anything to be done.
    pub fn should_act(&self) -> (r: bool)
        ensures
            r == (self.action != AutoModAction::Nothing),
    {
        self.action != AutoModAction::Nothing
    }
}

/// What the rules found in a message.
#[derive(Debug, Clone, Copy, PartialEq, Eq, Structural)]
pub struct Findings {
    /// More messages than allowed in the burst window.
    pub burst: bool,
    /// The same text too often in the duplicate window.
    pub duplicate: bool,
    /// More messages than allowed to someone who just joined.
    pub flooding: bool,
    /// The sender just joined.
    pub new_user: bool,
    /// Banned words and patterns in the text.
    pub keyword_hits: u64,
    /// Links to hosts that are not allowed.
    pub bad_links: u64,
    /// Links in all.
    pub links: u64,
    /// Users mentioned.
    pub mentions: u64,
    /// A long text mostly in capitals.
    pub caps: bool,
    /// A very long text.
    pub wall: bool,
}

/// The points of a rule that fired.
pub open spec fn points(fired: bool, weight: int) -> int {
    if fired {
        weight
    } else {
        0
    }
}

/// Points before links count: three for a burst, four for a duplicate, four for flooding by
/// someone new, five for each banned word or pattern.
pub open spec fn base_points(f: Findings) -> int {
    points(f.burst, 3) + points(f.duplicate, 4) + points(f.flooding, 4) + 5 * f.keyword_hits
}

/// Whether the link rule fires: on any link that is not allowed, or on too many links.
pub open spec fn links_fire(cfg: AutoModSection, f: Findings) -> bool {
    cfg.link_action@ != "off"@ && (f.bad_links > 0 || f.links > cfg.max_links)
}

/// Points with links: two for each link that is not allowed, four from someone new, and at least
/// enough for a warning where links are blocked; else two for too many links.
pub open spec fn link_points(cfg: AutoModSection, f: Findings) -> int {
    let base = base_points(f);
    if !links_fire(cfg, f) {
        base
    } else if f.bad_links > 0 {
        let sum = base + if f.new_user {
            4 * f.bad_links
        } else {
            2 * f.bad_links
        };
        if cfg.link_action@ == "block"@ && sum < cfg.warn_threshold {
            cfg.warn_threshold as int
        } else {
            sum
        }
    } else {
        base + 2
    }
}

/// All points: three more for too many mentions, one for capitals, one for a wall of text.
pub open spec fn all_points(cfg: AutoModSection, f: Findings) -> int {
    link_points(cfg, f) + points(f.mentions > cfg.max_mentions, 3) + points(f.caps, 1) + points(
        f.wall,
        1,
    )
}

/// The score: all points, up to the largest that fits.
pub open spec fn score_of(cfg: AutoModSection, f: Findings) -> u32 {
    if all_points(cfg, f) <= u32::MAX {
        all_points(cfg, f) as u32
    } else {
        u32::MAX
    }
}

/// The name of a rule where it fired.
pub open spec fn named(fired: bool, name: Seq<char>) -> Seq<Seq<char>> {
    if fired {
        seq![name]
    } else {
        Seq::empty()
    }
}

/// The rules that fired, in order.
pub open spec fn fired_rules(cfg: AutoModSection, f: Findings) -> Seq<Seq<char>> {
    Seq::empty() + named(f.burst, "rate_burst"@) + named(f.duplicate, "duplicate_content"@) + named(
        f.flooding,
        "new_user_flooding"@,
    ) + named(f.keyword_hits > 0, "banned_keyword"@) + named(
        links_fire(cfg, f),
        "link_filter"@,
    ) + named(f.mentions > cfg.max_mentions, "mention_spam"@) + named(f.caps, "caps"@) + named(
        f.wall,
        "wall_of_text"@,
    )
}

/// The action that a score calls for.
pub open spec fn base_action(cfg: AutoModSection, score: u32) -> AutoModAction {
    if score >= cfg.ban_threshold {
        AutoModAction::Ban
    } else if score >= cfg.kick_threshold {
        AutoModAction::Kick
    } else if score >= cfg.warn_threshold {
        AutoModAction::Warn
    } else {
        AutoModAction::Nothing
    }
}

/// The least action that a sender's `prior` violations call for on top of this one.
pub open spec fn escalation_floor(cfg: AutoModSection, prior: nat) -> AutoModAction {
    if cfg.escalation_ban_after > 0 && prior + 1 >= cfg.escalation_ban_after {
        AutoModAction::Ban
    } else if cfg.escalation_kick_after > 0 && prior + 1 >= cfg.escalation_kick_after {
        AutoModAction::Kick
    } else {
        AutoModAction::Nothing
    }
}

/// Whether earlier violations count: only where there is something to be done at all.
pub open spec fn escalates(cfg: AutoModSection, score: u32, prior: nat) -> bool {
    base_action(cfg, score) != AutoModAction::Nothing && escalation_floor(cfg, prior)
        != AutoModAction::Nothing
}

/// The action after escalation.
pub open spec fn final_action(cfg: AutoModSection, score: u32, prior: nat) -> AutoModAction {
    if escalates(cfg, score, prior) {
        base_action(cfg, score).at_least(escalation_floor(cfg, prior))
    } else {
        base_action(cfg, score)
    }
}

fn push_rule(rules: &mut Vec<String>, fired: bool, name: &str)
    ensures
        text::views(final(rules)@) == text::views(old(rules)@) + named(fired, name@),
{
    let ghost before = text::views(rules@);
    if fired {
        rules.push(name.to_owned());
    }
    proof {
        assert(text::views(rules@) =~= before + named(fired, name@));
    }
}

fn weigh(fired: bool, weight: u128) -> (r: u128)
    ensures
        r == points(fired, weight as int),
{
    if fired {
        weight
    } else {
        0
    }
}

fn link_rule_fires(cfg: &AutoModSection, f: &Findings) -> (r: bool)
    ensures
        r == links_fire(*cfg, *f),
{
    !text::same(cfg.link_action.as_str(), "off") && (f.bad_links > 0 || f.links
        > cfg.max_links as u64)
}

/// The names of the rules that fired.
pub fn rules_for(cfg: &AutoModSection, f: &Findings) -> (r: Vec<String>)
    ensures
        text::views(r@) == fired_rules(*cfg, *f),
{
    let mut rules: Vec<String> = Vec::new();
    let linked = link_rule_fires(cfg, f);
    proof {
        assert(text::views(rules@) =~= Seq::empty());
    }
    push_rule(&mut rules, f.burst, "rate_burst");
    push_rule(&mut rules, f.duplicate, "duplicate_content");
    push_rule(&mut rules, f.flooding, "new_user_flooding");
    push_rule(&mut rules, f.keyword_hits > 0, "banned_keyword");
    push_rule(&mut rules, linked, "link_filter");
    push_rule(&mut rules, f.mentions > cfg.max_mentions as u64, "mention_spam");
    push_rule(&mut rules, f.caps, "caps");
    push_rule(&mut rules, f.wall, "wall_of_text");
    rules
}

fn count_links(cfg: &AutoModSection, f: &Findings) -> (r: u128)
    ensures
        r == link_points(*cfg, *f),
        r < 0x1_0000_0000_0000_0000_0000,
{
    let base: u128 = weigh(f.burst, 3) + weigh(f.duplicate, 4) + weigh(f.flooding, 4) + 5 * (
    f.keyword_hits as u128);
    if !link_rule_fires(cfg, f) {
        return base;
    }
    if f.bad_links == 0 {
        return base + 2;
    }
    let each: u128 = if f.new_user {
        4 * (f.bad_links as u128)
    } else {
        2 * (f.bad_links as u128)
    };
    let least: u128 = cfg.warn_threshold as u128;
    if text::same(cfg.link_action.as_str(), "block") && base + each < least {
        least
    } else {
        base + each
    }
}

/// The score of what the rules found.
pub fn score_for(cfg: &AutoModSection, f: &Findings) -> (r: u32)
    ensures
        r == score_of(*cfg, *f),
{
    let crowded: bool = f.mentions > cfg.max_mentions as u64;
    let more: u128 = weigh(crowded, 3) + weigh(f.caps, 1) + weigh(f.wall, 1);
    let total: u128 = count_links(cfg, f) + more;
    if total <= 0xffff_ffff {
        total as u32
    } else {
        0xffff_ffff
    }
}

/// The action that a score and earlier violations call for, and whether the latter counted.
pub fn action_for(cfg: &AutoModSection, score: u32, prior: usize) -> (r: (AutoModAction, bool))
    ensures
        r.0 == final_action(*cfg, score, prior as nat),
        r.1 == escalates(*cfg, score, prior as nat),
{
    let action = if score >= cfg.ban_threshold {
        AutoModAction::Ban
    } else if score >= cfg.kick_threshold {
        AutoModAction::Kick
    } else if score >= cfg.warn_threshold {
        AutoModAction::Warn
    } else {
        AutoModAction::Nothing
    };
    if action != AutoModAction::Nothing {
        let number: u128 = prior as u128 + 1;
        if cfg.escalation_ban_after > 0 && number >= cfg.escalation_ban_after as u128 {
            return (AutoModAction::Ban, true);
        }
        if cfg.escalation_kick_after > 0 && number >= cfg.escalation_kick_after as u128 {
            if action == AutoModAction::Ban {
                return (AutoModAction::Ban, true);
            }
            return (AutoModAction::Kick, true);
        }
    }
    (action, false)
}

/// Turns what the rules found, and how many violations the sender has within the escalation
/// window, into a verdict.
pub fn judge(cfg: &AutoModSection, f: &Findings, prior: usize, dry_run: bool) -> (r: AutoModVerdict)
    ensures
        r.score == score_of(*cfg, *f),
        text::views(r.rules_triggered@) == fired_rules(*cfg, *f) + named(
            escalates(*cfg, score_of(*cfg, *f), prior as nat),
            "escalation"@,
        ),
        r.action == final_action(*cfg, score_of(*cfg, *f), prior as nat),
        r.dry_run == dry_run,
{
    let mut rules = rules_for(cfg, f);
    let score: u32 = score_for(cfg, f);
    let (action, escalated) = action_for(cfg, score, prior);
    push_rule(&mut rules, escalated, "escalation");
    AutoModVerdict { score, rules_triggered: rules, action, dry_run }
}

// ---------------------------------------------------------------------------
// Reading a message
// ---------------------------------------------------------------------------

/// Matches http and https addresses.
pub open spec fn url_pattern() -> Seq<char> {
    "https?://[^\\s<>()]+"@
}

/// Matches npubs, with or without `nostr:` before them.
pub open spec fn npub_pattern() -> Seq<char> {
    "(?:nostr:)?npub1[0-9a-z]{20,}"@
}

/// A text with its words one space apart, in lower case.
pub open spec fn normalized(s: Seq<char>) -> Seq<char> {
    text::str_lowercase(text::joined(text::words(s), " "@))
}

/// A text with its words one space apart, in lower case.
pub fn normalize_text(s: &str) -> (r: String)
    ensures
        r@ == normalized(s@),
{
    text::to_lowercase(text::join(&text::split_words(s), " ").as_str())
}

/// How many letters a text has.
pub open spec fn letters(s: Seq<char>) -> nat
    decreases s.len(),
{
    if s.len() == 0 {
        0
    } else if text::char_is_alphabetic(s.last()) {
        letters(s.drop_last()) + 1
    } else {
        letters(s.drop_last())
    }
}

/// How many capital letters a text has.
pub open spec fn capitals(s: Seq<char>) -> nat
    decreases s.len(),
{
    if s.len() == 0 {
        0
    } else if text::char_is_alphabetic(s.last()) && text::char_is_uppercase(s.last()) {
        capitals(s.drop_last()) + 1
    } else {
        capitals(s.drop_last())
    }
}

/// How many percent of the letters are capitals, rounded down; none without letters.
pub open spec fn caps_percent(s: Seq<char>) -> int {
    if letters(s) == 0 {
        0
    } else {
        (capitals(s) * 100) as int / letters(s) as int
    }
}

/// How many percent of the letters of a text are capitals.
pub fn caps_percentage(s: &str) -> (r: u32)
    ensures
        r == caps_percent(s@),
        r <= 100,
{
    let chars = text::chars_of(s);
    let mut upper: u128 = 0;
    let mut count: u128 = 0;
    let mut i: usize = 0;
    proof {
        assert(s@.take(0) =~= Seq::<char>::empty());
    }
    while i < chars.len()
        invariant
            i <= chars.len(),
            chars@ == s@,
            upper <= count <= i,
            upper == capitals(s@.take(i as int)),
            count == letters(s@.take(i as int)),
        decreases chars.len() - i,
    {
        let c = chars[i];
        proof {
            assert(s@.take(i + 1).drop_last() =~= s@.take(i as int));
            assert(s@.take(i + 1).last() == c);
        }
        if text::is_alphabetic(c) {
            count = count + 1;
            if text::is_uppercase(c) {
                upper = upper + 1;
            }
        }
        i = i + 1;
    }
    proof {
        assert(s@.take(i as int) =~= s@);
    }
    if count == 0 {
        0
    } else {
        proof {
            let u = upper as int;
            let c = count as int;
            assert((u * 100) / c <= 100) by (nonlinear_arith)
                requires
                    0 <= u <= c,
                    c > 0,
            ;
            assert((u * 100) / c >= 0) by (nonlinear_arith)
                requires
                    0 <= u,
                    c > 0,
            ;
        }
        ((upper * 100) / count) as u32
    }
}

/// Whether a character ends the part of an address that names the host.
pub open spec fn ends_authority(c: char) -> bool {
    c == '/' || c == '?' || c == '#'
}

/// How long the part of an address that names the host is.
pub open spec fn authority_len(s: Seq<char>) -> int
    decreases s.len(),
{
    if s.len() == 0 || ends_authority(s[0]) {
        0
    } else {
        1 + authority_len(s.drop_first())
    }
}

/// The host of an address: what follows the scheme up to a path, a query or a fragment, without
/// user information and without a port.
pub open spec fn host_of(url: Seq<char>) -> Seq<char> {
    let rest = match text::stripped_prefix(url, "https://"@) {
        Some(t) => t,
        None => match text::stripped_prefix(url, "http://"@) {
            Some(t) => t,
            None => url,
        },
    };
    let place = text::pieces(rest.take(authority_len(rest)), '@').last();
    place.take(text::first_of(place, ':'))
}

proof fn lemma_authority_len(s: Seq<char>, i: int)
    requires
        0 <= i <= s.len(),
        forall|k: int| 0 <= k < i ==> !ends_authority(#[trigger] s[k]),
        i == s.len() || ends_authority(s[i]),
    ensures
        authority_len(s) == i,
    decreases s.len(),
{
    if s.len() > 0 && !ends_authority(s[0]) {
        let t = s.drop_first();
        assert forall|k: int| 0 <= k < i - 1 implies !ends_authority(#[trigger] t[k]) by {
            assert(t[k] == s[k + 1]);
        }
        lemma_authority_len(t, i - 1);
    }
}

/// The host of an address.
pub fn url_host(url: &str) -> (r: String)
    ensures
        r@ == host_of(url@),
{
    let rest = match text::strip_prefix(url, "https://") {
        Some(t) => t,
        None => match text::strip_prefix(url, "http://") {
            Some(t) => t,
            None => url,
        },
    };
    let chars = text::chars_of(rest);
    let mut i: usize = 0;
    while i < chars.len() && chars[i] != '/' && chars[i] != '?' && chars[i] != '#'
        invariant
            i <= chars.len(),
            chars@ == rest@,
            forall|k: int| 0 <= k < i ==> !ends_authority(#[trigger] rest@[k]),
        decreases chars.len() - i,
    {
        i = i + 1;
    }
    proof {
        lemma_authority_len(rest@, i as int);
    }
    let authority = rest.substring_char(0, i);
    proof {
        assert(authority@ =~= rest@.take(i as int));
    }
    let parts = text::split_char(authority, '@');
    let ghost all = text::views(parts@);
    let n: usize = parts.len();
    proof {
        assert(all.last() == parts@[n - 1]@);
    }
    let place = parts[n - 1].as_str();
    let k: usize = text::find_char(place, ':');
    let host = place.substring_char(0, k);
    proof {
        assert(host@ =~= place@.take(k as int));
    }
    host.to_owned()
}

/// Whether a host, in lower case, is a domain or one of its subdomains.
pub open spec fn in_domain(host: Seq<char>, domain: Seq<char>) -> bool {
    host == text::str_lowercase(domain) || ("."@ + text::str_lowercase(domain)).is_suffix_of(host)
}

/// Whether an address is on a list of domains.
pub open spec fn allowed(url: Seq<char>, list: Seq<Seq<char>>) -> bool {
    host_of(url).len() > 0 && exists|i: int|
        0 <= i < list.len() && in_domain(text::str_lowercase(host_of(url)), #[trigger] list[i])
}

/// Whether an address is on a list of domains, itself or as a subdomain.
pub fn is_allowlisted(url: &str, allowlist: &Vec<String>) -> (r: bool)
    ensures
        r == allowed(url@, text::views(allowlist@)),
{
    let host = url_host(url);
    if host.as_str().is_empty() {
        return false;
    }
    let lower = text::to_lowercase(host.as_str());
    let ghost list = text::views(allowlist@);
    let mut i: usize = 0;
    while i < allowlist.len()
        invariant
            i <= allowlist.len(),
            list == text::views(allowlist@),
            host_of(url@).len() > 0,
            lower@ == text::str_lowercase(host_of(url@)),
            forall|k: int| 0 <= k < i ==> !in_domain(lower@, #[trigger] list[k]),
        decreases allowlist.len() - i,
    {
        let domain = text::to_lowercase(allowlist[i].as_str());
        proof {
            assert(list[i as int] == allowlist@[i as int]@);
        }
        let dotted = text::cat2(".", domain.as_str());
        if text::same(lower.as_str(), domain.as_str()) || text::ends_with(
            lower.as_str(),
            dotted.as_str(),
        ) {
            proof {
                assert(in_domain(lower@, list[i as int]));
            }
            return true;
        }
        i = i + 1;
    }
    false
}

/// How many addresses are not on a list of domains.
pub open spec fn strangers(urls: Seq<Seq<char>>, list: Seq<Seq<char>>) -> nat
    decreases urls.len(),
{
    if urls.len() == 0 {
        0
    } else if allowed(urls.last(), list) {
        strangers(urls.drop_last(), list)
    } else {
        strangers(urls.drop_last(), list) + 1
    }
}

fn count_strangers(urls: &Vec<String>, allowlist: &Vec<String>) -> (r: usize)
    ensures
        r == strangers(text::views(urls@), text::views(allowlist@)),
{
    let ghost all = text::views(urls@);
    let mut count: usize = 0;
    let mut i: usize = 0;
    proof {
        assert(all.take(0) =~= Seq::empty());
    }
    while i < urls.len()
        invariant
            i <= urls.len(),
            all == text::views(urls@),
            count <= i,
            count == strangers(all.take(i as int), text::views(allowlist@)),
        decreases urls.len() - i,
    {
        proof {
            assert(all.take(i + 1).drop_last() =~= all.take(i as int));
            assert(all.take(i + 1).last() == urls@[i as int]@);
        }
        if !is_allowlisted(urls[i].as_str(), allowlist) {
            count = count + 1;
        }
        i = i + 1;
    }
    proof {
        assert(all.take(i as int) =~= all);
    }
    count
}

/// How many of the words are in a text in lower case.
pub open spec fn words_hit(words: Seq<Seq<char>>, lower: Seq<char>) -> nat
    decreases words.len(),
{
    if words.len() == 0 {
        0
    } else if words.last().len() > 0 && text::has_substring(lower, words.last()) {
        words_hit(words.drop_last(), lower) + 1
    } else {
        words_hit(words.drop_last(), lower)
    }
}

/// How many of the patterns match a text.
pub open spec fn patterns_hit(patterns: Seq<Seq<char>>, s: Seq<char>) -> nat
    decreases patterns.len(),
{
    if patterns.len() == 0 {
        0
    } else if pattern::pattern_matches(patterns.last(), s) {
        patterns_hit(patterns.drop_last(), s) + 1
    } else {
        patterns_hit(patterns.drop_last(), s)
    }
}

fn count_words(words: &Vec<String>, lower: &str) -> (r: usize)
    ensures
        r == words_hit(text::views(words@), lower@),
        r <= words.len(),
{
    let ghost all = text::views(words@);
    let mut count: usize = 0;
    let mut i: usize = 0;
    proof {
        assert(all.take(0) =~= Seq::empty());
    }
    while i < words.len()
        invariant
            i <= words.len(),
            all == text::views(words@),
            count <= i,
            count == words_hit(all.take(i as int), lower@),
        decreases words.len() - i,
    {
        proof {
            assert(all.take(i + 1).drop_last() =~= all.take(i as int));
            assert(all.take(i + 1).last() == words@[i as int]@);
        }
        if !words[i].as_str().is_empty() && text::contains(lower, words[i].as_str()) {
            count = count + 1;
        }
        i = i + 1;
    }
    proof {
        assert(all.take(i as int) =~= all);
    }
    count
}

fn count_patterns(patterns: &Vec<String>, s: &str) -> (r: usize)
    ensures
        r == patterns_hit(text::views(patterns@), s@),
        r <= patterns.len(),
{
    let ghost all = text::views(patterns@);
    let mut count: usize = 0;
    let mut i: usize = 0;
    proof {
        assert(all.take(0) =~= Seq::empty());
    }
    while i < patterns.len()
        invariant
            i <= patterns.len(),
            all == text::views(patterns@),
            count <= i,
            count == patterns_hit(all.take(i as int), s@),
        decreases patterns.len() - i,
    {
        proof {
            assert(all.take(i + 1).drop_last() =~= all.take(i as int));
            assert(all.take(i + 1).last() == patterns@[i as int]@);
        }
        if pattern::matches_in(patterns[i].as_str(), s) {
            count = count + 1;
        }
        i = i + 1;
    }
    proof {
        assert(all.take(i as int) =~= all);
    }
    count
}

// ---------------------------------------------------------------------------
// What is remembered of a user
// ---------------------------------------------------------------------------

/// A message.
pub struct MsgRecord {
    pub at: u64,
    /// Its normalized text.
    pub normalized: String,
}

/// What a message record says.
pub struct MsgView {
    pub at: u64,
    pub normalized: Seq<char>,
}

impl View for MsgRecord {
    type V = MsgView;

    open spec fn view(&self) -> MsgView {
        MsgView { at: self.at, normalized: self.normalized@ }
    }
}

/// A violation.
pub struct ViolationRecord {
    pub at: u64,
    /// The rules that fired, with commas between them.
    pub rules: String,
    pub score: u32,
    pub action: String,
}

/// What a violation record says.
pub struct ViolationView {
    pub at: u64,
    pub rules: Seq<char>,
    pub score: u32,
    pub action: Seq<char>,
}

impl View for ViolationRecord {
    type V = ViolationView;

    open spec fn view(&self) -> ViolationView {
        ViolationView {
            at: self.at,
            rules: self.rules@,
            score: self.score,
            action: self.action@,
        }
    }
}

/// What is remembered of a user.
pub struct UserRecord {
    pub messages: Vec<MsgRecord>,
    pub violations: Vec<ViolationRecord>,
    /// When the user joined, if that was seen.
    pub join_time: Option<u64>,
    /// Messages since then.
    pub msgs_since_join: u32,
}

/// What a user record says.
#[verifier::ext_equal]
pub struct UserView {
    pub messages: Seq<MsgView>,
    pub violations: Seq<ViolationView>,
    pub join_time: Option<u64>,
    pub msgs_since_join: u32,
}

/// The views of message records.
pub open spec fn msg_views(v: Seq<MsgRecord>) -> Seq<MsgView> {
    v.map_values(|m: MsgRecord| m@)
}

/// The views of violation records.
pub open spec fn violation_views(v: Seq<ViolationRecord>) -> Seq<ViolationView> {
    v.map_values(|m: ViolationRecord| m@)
}

impl View for UserRecord {
    type V = UserView;

    open spec fn view(&self) -> UserView {
        UserView {
            messages: msg_views(self.messages@),
            violations: violation_views(self.violations@),
            join_time: self.join_time,
            msgs_since_join: self.msgs_since_join,
        }
    }
}

/// What is remembered of a user nothing is known of.
pub open spec fn no_record() -> UserView {
    UserView {
        messages: Seq::empty(),
        violations: Seq::empty(),
        join_time: None,
        msgs_since_join: 0,
    }
}

/// The messages of at most `window` seconds ago.
pub open spec fn recent_messages(v: Seq<MsgView>, now: u64, window: u64) -> Seq<MsgView>
    decreases v.len(),
{
    if v.len() == 0 {
        v
    } else if clock::age(now, v.last().at) <= window {
        recent_messages(v.drop_last(), now, window).push(v.last())
    } else {
        recent_messages(v.drop_last(), now, window)
    }
}

/// The violations of at most `window` seconds ago.
pub open spec fn recent_violations(v: Seq<ViolationView>, now: u64, window: u64) -> Seq<
    ViolationView,
>
    decreases v.len(),
{
    if v.len() == 0 {
        v
    } else if clock::age(now, v.last().at) <= window {
        recent_violations(v.drop_last(), now, window).push(v.last())
    } else {
        recent_violations(v.drop_last(), now, window)
    }
}

/// How many messages of at most `window` seconds ago have a text.
pub open spec fn same_texts(v: Seq<MsgView>, now: u64, window: u64, what: Seq<char>) -> nat
    decreases v.len(),
{
    if v.len() == 0 {
        0
    } else if clock::age(now, v.last().at) <= window && v.last().normalized == what {
        same_texts(v.drop_last(), now, window, what) + 1
    } else {
        same_texts(v.drop_last(), now, window, what)
    }
}

/// The longest window in which messages matter.
pub open spec fn widest(cfg: AutoModSection) -> u64 {
    let a = if cfg.burst_window_secs >= cfg.dedupe_window_secs {
        cfg.burst_window_secs
    } else {
        cfg.dedupe_window_secs
    };
    if a >= cfg.new_user_grace_secs {
        a
    } else {
        cfg.new_user_grace_secs
    }
}

/// Whether a user joined within the grace period.
pub open spec fn is_new(u: UserView, cfg: AutoModSection, now: u64) -> bool {
    match u.join_time {
        Some(t) => clock::age(now, t) <= cfg.new_user_grace_secs,
        None => false,
    }
}

/// One more, up to the largest count.
pub open spec fn one_more(n: u32) -> u32 {
    if n < u32::MAX {
        (n + 1) as u32
    } else {
        n
    }
}

/// What is remembered of a user after a message: old records go, the message is added, and it
/// counts against someone new.
pub open spec fn remembered(u: UserView, cfg: AutoModSection, s: Seq<char>, now: u64) -> UserView {
    UserView {
        messages: recent_messages(u.messages, now, widest(cfg)).push(
            MsgView { at: now, normalized: normalized(s) },
        ),
        violations: recent_violations(u.violations, now, cfg.escalation_window_secs),
        join_time: u.join_time,
        msgs_since_join: if is_new(u, cfg, now) {
            one_more(u.msgs_since_join)
        } else {
            u.msgs_since_join
        },
    }
}

/// The lists that a message is held against.
pub struct FiltersView {
    pub words: Seq<Seq<char>>,
    pub patterns: Seq<Seq<char>>,
    pub allowlist: Seq<Seq<char>>,
}

/// What the rules find in a message, given what is remembered of its sender with it.
pub open spec fn found(
    u: UserView,
    filters: FiltersView,
    cfg: AutoModSection,
    s: Seq<char>,
    now: u64,
) -> Findings {
    let urls = pattern::pattern_found(url_pattern(), s);
    Findings {
        burst: recent_messages(u.messages, now, cfg.burst_window_secs).len() > cfg.max_messages,
        duplicate: normalized(s).len() > 0 && same_texts(
            u.messages,
            now,
            cfg.dedupe_window_secs,
            normalized(s),
        ) >= cfg.max_duplicates,
        flooding: is_new(u, cfg, now) && u.msgs_since_join > cfg.new_user_max_msgs,
        new_user: is_new(u, cfg, now),
        keyword_hits: capped(
            words_hit(filters.words, text::str_lowercase(s)) + patterns_hit(filters.patterns, s),
        ),
        bad_links: capped(strangers(urls, filters.allowlist)),
        links: capped(urls.len()),
        mentions: capped(pattern::pattern_found(npub_pattern(), s).len()),
        caps: text::byte_len(s) >= cfg.caps_min_length && caps_percent(s)
            >= cfg.caps_threshold_pct,
        wall: text::byte_len(s) > cfg.max_msg_length,
    }
}

/// A count, up to the largest that fits.
pub open spec fn capped(n: nat) -> u64 {
    if n <= u64::MAX {
        n as u64
    } else {
        u64::MAX
    }
}

fn keep_messages(v: &Vec<MsgRecord>, now: u64, window: u64) -> (r: Vec<MsgRecord>)
    ensures
        msg_views(r@) == recent_messages(msg_views(v@), now, window),
{
    let ghost all = msg_views(v@);
    let mut out: Vec<MsgRecord> = Vec::new();
    let mut i: usize = 0;
    proof {
        assert(all.take(0) =~= Seq::empty());
        assert(msg_views(out@) =~= Seq::empty());
    }
    while i < v.len()
        invariant
            i <= v.len(),
            all == msg_views(v@),
            msg_views(out@) == recent_messages(all.take(i as int), now, window),
        decreases v.len() - i,
    {
        let m = &v[i];
        let ghost before = msg_views(out@);
        proof {
            assert(all.take(i + 1).drop_last() =~= all.take(i as int));
            assert(all.take(i + 1).last() == m@);
        }
        if clock::elapsed(now, m.at) <= window {
            out.push(MsgRecord { at: m.at, normalized: m.normalized.clone() });
            proof {
                assert(msg_views(out@) =~= before.push(m@));
            }
        }
        i = i + 1;
    }
    proof {
        assert(all.take(i as int) =~= all);
    }
    out
}

pub(crate) fn copy_violation(v: &ViolationRecord) -> (r: ViolationRecord)
    ensures
        r@ == v@,
{
    ViolationRecord {
        at: v.at,
        rules: v.rules.clone(),
        score: v.score,
        action: v.action.clone(),
    }
}

pub(crate) fn keep_violations(v: &Vec<ViolationRecord>, now: u64, window: u64) -> (r: Vec<ViolationRecord>)
    ensures
        violation_views(r@) == recent_violations(violation_views(v@), now, window),
{
    let ghost all = violation_views(v@);
    let mut out: Vec<ViolationRecord> = Vec::new();
    let mut i: usize = 0;
    proof {
        assert(all.take(0) =~= Seq::empty());
        assert(violation_views(out@) =~= Seq::empty());
    }
    while i < v.len()
        invariant
            i <= v.len(),
            all == violation_views(v@),
            violation_views(out@) == recent_violations(all.take(i as int), now, window),
        decreases v.len() - i,
    {
        let m = &v[i];
        let ghost before = violation_views(out@);
        proof {
            assert(all.take(i + 1).drop_last() =~= all.take(i as int));
            assert(all.take(i + 1).last() == m@);
        }
        if clock::elapsed(now, m.at) <= window {
            out.push(copy_violation(m));
            proof {
                assert(violation_views(out@) =~= before.push(m@));
            }
        }
        i = i + 1;
    }
    proof {
        assert(all.take(i as int) =~= all);
    }
    out
}

fn count_recent(v: &Vec<MsgRecord>, now: u64, window: u64) -> (r: usize)
    ensures
        r == recent_messages(msg_views(v@), now, window).len(),
{
    let ghost all = msg_views(v@);
    let mut count: usize = 0;
    let mut i: usize = 0;
    proof {
        assert(all.take(0) =~= Seq::empty());
    }
    while i < v.len()
        invariant
            i <= v.len(),
            all == msg_views(v@),
            count <= i,
            count == recent_messages(all.take(i as int), now, window).len(),
        decreases v.len() - i,
    {
        proof {
            assert(all.take(i + 1).drop_last() =~= all.take(i as int));
            assert(all.take(i + 1).last() == v@[i as int]@);
        }
        if clock::elapsed(now, v[i].at) <= window {
            count = count + 1;
        }
        i = i + 1;
    }
    proof {
        assert(all.take(i as int) =~= all);
    }
    count
}

fn count_same(v: &Vec<MsgRecord>, now: u64, window: u64, what: &str) -> (r: usize)
    ensures
        r == same_texts(msg_views(v@), now, window, what@),
{
    let ghost all = msg_views(v@);
    let mut count: usize = 0;
    let mut i: usize = 0;
    proof {
        assert(all.take(0) =~= Seq::empty());
    }
    while i < v.len()
        invariant
            i <= v.len(),
            all == msg_views(v@),
            count <= i,
            count == same_texts(all.take(i as int), now, window, what@),
        decreases v.len() - i,
    {
        proof {
            assert(all.take(i + 1).drop_last() =~= all.take(i as int));
            assert(all.take(i + 1).last() == v@[i as int]@);
        }
        if clock::elapsed(now, v[i].at) <= window && text::same(v[i].normalized.as_str(), what) {
            count = count + 1;
        }
        i = i + 1;
    }
    proof {
        assert(all.take(i as int) =~= all);
    }
    count
}

pub(crate) fn remember(u: &mut UserRecord, cfg: &AutoModSection, s: &str, now: u64)
    ensures
        final(u)@ == remembered(old(u)@, *cfg, s@, now),
{
    let ghost before = u@;
    let mut window: u64 = cfg.burst_window_secs;
    if cfg.dedupe_window_secs > window {
        window = cfg.dedupe_window_secs;
    }
    if cfg.new_user_grace_secs > window {
        window = cfg.new_user_grace_secs;
    }
    u.messages = keep_messages(&u.messages, now, window);
    u.violations = keep_violations(&u.violations, now, cfg.escalation_window_secs);
    let ghost kept = msg_views(u.messages@);
    let what = normalize_text(s);
    u.messages.push(MsgRecord { at: now, normalized: what });
    proof {
        assert(msg_views(u.messages@) =~= kept.push(
            MsgView { at: now, normalized: normalized(s@) },
        ));
    }
    if joined_lately(u, cfg, now) {
        if u.msgs_since_join < u32::MAX {
            u.msgs_since_join = u.msgs_since_join + 1;
        }
    }
    proof {
        assert(u@ =~= remembered(before, *cfg, s@, now));
    }
}

fn joined_lately(u: &UserRecord, cfg: &AutoModSection, now: u64) -> (r: bool)
    ensures
        r == is_new(u@, *cfg, now),
{
    match u.join_time {
        Some(t) => clock::elapsed(now, t) <= cfg.new_user_grace_secs,
        None => false,
    }
}

fn up_to_max(a: usize, b: usize) -> (r: u64)
    ensures
        r == capped((a + b) as nat),
{
    let sum: u128 = a as u128 + b as u128;
    if sum <= 0xffff_ffff_ffff_ffff {
        sum as u64
    } else {
        0xffff_ffff_ffff_ffff
    }
}

pub(crate) fn examine(
    u: &UserRecord,
    words: &Vec<String>,
    patterns: &Vec<String>,
    allowlist: &Vec<String>,
    cfg: &AutoModSection,
    s: &str,
    now: u64,
) -> (r: Findings)
    ensures
        r == found(
            u@,
            FiltersView {
                words: text::views(words@),
                patterns: text::views(patterns@),
                allowlist: text::views(allowlist@),
            },
            *cfg,
            s@,
            now,
        ),
{
    let what = normalize_text(s);
    let burst: bool = count_recent(&u.messages, now, cfg.burst_window_secs) as u64
        > cfg.max_messages as u64;
    let duplicate: bool = !what.as_str().is_empty() && count_same(
        &u.messages,
        now,
        cfg.dedupe_window_secs,
        what.as_str(),
    ) as u64 >= cfg.max_duplicates as u64;
    let new_user = joined_lately(u, cfg, now);
    let lower = text::to_lowercase(s);
    let urls = pattern::find_all("https?://[^\\s<>()]+", s);
    let mentions = pattern::find_all("(?:nostr:)?npub1[0-9a-z]{20,}", s);
    let ghost url_views = text::views(urls@);
    let ghost mention_views = text::views(mentions@);
    let size: usize = text::len_bytes(s);
    let caps: bool = size >= cfg.caps_min_length && caps_percentage(s) >= cfg.caps_threshold_pct;
    proof {
        assert(url_views.len() == urls.len());
        assert(mention_views.len() == mentions.len());
    }
    Findings {
        burst,
        duplicate,
        flooding: new_user && u.msgs_since_join > cfg.new_user_max_msgs,
        new_user,
        keyword_hits: up_to_max(
            count_words(words, lower.as_str()),
            count_patterns(patterns, s),
        ),
        bad_links: count_strangers(&urls, allowlist) as u64,
        links: urls.len() as u64,
        mentions: mentions.len() as u64,
        caps,
        wall: size > cfg.max_msg_length,
    }
}

// ---------------------------------------------------------------------------
// Laws
// ---------------------------------------------------------------------------

/// A higher score never calls for a milder action.
pub proof fn law_score_raises_action(cfg: AutoModSection, low: u32, high: u32)
    requires
        low <= high,
    ensures
        base_action(cfg, low).severity() <= base_action(cfg, high).severity(),
{
}

/// Earlier violations never make an action milder, and make nothing of a message that calls for
/// nothing.
pub proof fn law_escalation_only_raises(cfg: AutoModSection, score: u32, prior: nat)
    ensures
        base_action(cfg, score).severity() <= final_action(cfg, score, prior).severity(),
        base_action(cfg, score) == AutoModAction::Nothing ==> final_action(cfg, score, prior)
            == AutoModAction::Nothing,
{
}

/// More earlier violations never make an action milder.
pub proof fn law_violations_raise_action(cfg: AutoModSection, score: u32, fewer: nat, more: nat)
    requires
        fewer <= more,
    ensures
        final_action(cfg, score, fewer).severity() <= final_action(cfg, score, more).severity(),
{
}

/// Where links are blocked, one that is not allowed is enough for a warning.
pub proof fn law_blocked_link_is_warned(cfg: AutoModSection, f: Findings)
    requires
        cfg.link_action@ == "block"@,
        f.bad_links > 0,
    ensures
        base_action(cfg, score_of(cfg, f)) != AutoModAction::Nothing,
{
    reveal_strlit("block");
    reveal_strlit("off");
    assert("block"@.len() != "off"@.len());
}

/// A message in which nothing is found fires no rule and scores nothing.
pub proof fn law_clean_message_scores_nothing(cfg: AutoModSection, f: Findings)
    requires
        !f.burst && !f.duplicate && !f.flooding && !f.caps && !f.wall,
        f.keyword_hits == 0 && f.bad_links == 0,
        f.links <= cfg.max_links,
        f.mentions <= cfg.max_mentions,
    ensures
        score_of(cfg, f) == 0,
        fired_rules(cfg, f) == Seq::<Seq<char>>::empty(),
{
    assert(fired_rules(cfg, f) =~= Seq::<Seq<char>>::empty());
}

} // verus!
