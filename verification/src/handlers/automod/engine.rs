//! The state of auto-moderation and what is done about a message.

use vstd::prelude::*;
use crate::auth::{AuthManager, AuthView};
use crate::config::AutoModSection;
use crate::handlers::automod::{
    AutoModAction, AutoModVerdict, FiltersView, MsgRecord, UserRecord, UserView, ViolationRecord,
    ViolationView,
};
use crate::table::Table;
use crate::handlers::automod;
use crate::{auth, clock, number, order, pattern, table, text};

verus! {

/// Seconds between two times that the state is saved.
pub const PERSIST_INTERVAL_SECS: u64 = 60;

/// The file that the state is kept in.
pub fn state_file() -> (r: &'static str)
    ensures
        r@ == "data/automod-state.json"@,
{
    "data/automod-state.json"
}

/// The file that every action is logged in, a JSON line each.
pub fn audit_log_file() -> (r: &'static str)
    ensures
        r@ == "data/automod-log.json"@,
{
    "data/automod-log.json"
}

/// The state as it is saved.
pub struct AutoModState {
    pub users: Vec<(String, UserRecord)>,
    pub total_warns: u64,
    pub total_kicks: u64,
    pub total_bans: u64,
}

/// What the engine holds.
#[verifier::ext_equal]
pub struct EngineView {
    pub enabled: bool,
    /// Banned words, in lower case.
    pub words: Seq<Seq<char>>,
    pub patterns: Seq<Seq<char>>,
    pub allowlist: Seq<Seq<char>>,
    pub users: Map<Seq<char>, UserView>,
    pub total_warns: u64,
    pub total_kicks: u64,
    pub total_bans: u64,
    /// When it was last switched on; when it was set up where it never was.
    pub enabled_at: u64,
    pub last_persist: u64,
}

impl EngineView {
    /// What is remembered of a user.
    pub open spec fn record(self, npub: Seq<char>) -> UserView {
        if self.users.dom().contains(npub) {
            self.users[npub]
        } else {
            automod::no_record()
        }
    }

    /// The engine with what is remembered of a user replaced.
    pub open spec fn with_record(self, npub: Seq<char>, u: UserView) -> EngineView {
        EngineView { users: self.users.insert(npub, u), ..self }
    }

    /// The lists that messages are held against.
    pub open spec fn filters(self) -> FiltersView {
        FiltersView { words: self.words, patterns: self.patterns, allowlist: self.allowlist }
    }

    /// The engine after a switch. Switching it on opens a new log-only window, unless it was on.
    pub open spec fn switched(self, on: bool, now: u64) -> EngineView {
        EngineView {
            enabled: on,
            enabled_at: if on && !self.enabled {
                now
            } else {
                self.enabled_at
            },
            ..self
        }
    }

    /// Whether nothing is enforced yet: in the first minutes after it was switched on.
    pub open spec fn dry(self, cfg: AutoModSection, now: u64) -> bool {
        cfg.dry_run_minutes > 0 && clock::age(now, self.enabled_at) < cfg.dry_run_minutes * 60
    }
}

/// Texts in lower case.
pub open spec fn lowered(v: Seq<Seq<char>>) -> Seq<Seq<char>> {
    v.map_values(|s: Seq<char>| text::str_lowercase(s))
}

/// The patterns that are regular expressions.
pub open spec fn valid_patterns(v: Seq<Seq<char>>) -> Seq<Seq<char>>
    decreases v.len(),
{
    if v.len() == 0 {
        v
    } else if pattern::pattern_compiles(v.last()) {
        valid_patterns(v.drop_last()).push(v.last())
    } else {
        valid_patterns(v.drop_last())
    }
}

/// A list without a word.
pub open spec fn without_word(v: Seq<Seq<char>>, w: Seq<char>) -> Seq<Seq<char>>
    decreases v.len(),
{
    if v.len() == 0 {
        v
    } else if v.last() == w {
        without_word(v.drop_last(), w)
    } else {
        without_word(v.drop_last(), w).push(v.last())
    }
}

/// A list without the domains that are `d` in lower case.
pub open spec fn without_domain(v: Seq<Seq<char>>, d: Seq<char>) -> Seq<Seq<char>>
    decreases v.len(),
{
    if v.len() == 0 {
        v
    } else if text::str_lowercase(v.last()) == d {
        without_domain(v.drop_last(), d)
    } else {
        without_domain(v.drop_last(), d).push(v.last())
    }
}

/// A word or a domain as it is kept: trimmed, in lower case.
pub open spec fn entry(s: Seq<char>) -> Seq<char> {
    text::str_lowercase(text::trimmed(s))
}

/// Whether a sender is exempt: never without a name; the bot and its owner always; authorized
/// users unless they are checked too; admins.
pub open spec fn exempt(
    auth: Option<AuthView>,
    bot: Seq<char>,
    npub: Seq<char>,
    community: Option<Seq<char>>,
    is_admin: bool,
    strict: bool,
) -> bool {
    npub.len() > 0 && (npub == bot || is_admin || match auth {
        Some(a) => npub == a.owner || (!strict && a.authorizes(npub, community)),
        None => false,
    })
}

/// One more, up to the largest count.
pub open spec fn counted(n: u64) -> u64 {
    if n < u64::MAX {
        (n + 1) as u64
    } else {
        n
    }
}

/// A verdict as it is remembered.
pub open spec fn violation(v: AutoModVerdict, now: u64) -> ViolationView {
    ViolationView {
        at: now,
        rules: text::joined(text::views(v.rules_triggered@), ","@),
        score: v.score,
        action: v.action.name(),
    }
}

/// The engine once a verdict is recorded: the violation is remembered, and counted unless nothing
/// is enforced.
pub open spec fn recorded(e: EngineView, npub: Seq<char>, v: AutoModVerdict, now: u64) -> EngineView {
    let u = e.record(npub);
    let e1 = e.with_record(
        npub,
        UserView { violations: u.violations.push(violation(v, now)), ..u },
    );
    if v.dry_run {
        e1
    } else {
        match v.action {
            AutoModAction::Warn => EngineView { total_warns: counted(e.total_warns), ..e1 },
            AutoModAction::Kick => EngineView { total_kicks: counted(e.total_kicks), ..e1 },
            AutoModAction::Ban => EngineView { total_bans: counted(e.total_bans), ..e1 },
            AutoModAction::Nothing => e1,
        }
    }
}

/// Whether the state is to be saved.
pub open spec fn save_due(e: EngineView, now: u64) -> bool {
    clock::age(now, e.last_persist) >= PERSIST_INTERVAL_SECS
}

/// The engine once it has been asked whether to save.
pub open spec fn save_noted(e: EngineView, now: u64) -> EngineView {
    if save_due(e, now) {
        EngineView { last_persist: now, ..e }
    } else {
        e
    }
}

/// Auto-moderation.
pub struct AutoModEngine {
    enabled: bool,
    words: Vec<String>,
    patterns: Vec<String>,
    allowlist: Vec<String>,
    users: Table<UserRecord>,
    total_warns: u64,
    total_kicks: u64,
    total_bans: u64,
    enabled_at: u64,
    last_persist: u64,
}

impl View for AutoModEngine {
    type V = EngineView;

    closed spec fn view(&self) -> EngineView {
        EngineView {
            enabled: self.enabled,
            words: text::views(self.words@),
            patterns: text::views(self.patterns@),
            allowlist: text::views(self.allowlist@),
            users: self.users@,
            total_warns: self.total_warns,
            total_kicks: self.total_kicks,
            total_bans: self.total_bans,
            enabled_at: self.enabled_at,
            last_persist: self.last_persist,
        }
    }
}

fn lower_all(v: &Vec<String>) -> (r: Vec<String>)
    ensures
        text::views(r@) == lowered(text::views(v@)),
{
    let mut out: Vec<String> = Vec::new();
    let mut i: usize = 0;
    while i < v.len()
        invariant
            i <= v.len(),
            out.len() == i,
            forall|k: int| 0 <= k < i ==> (#[trigger] out@[k])@ == text::str_lowercase(v@[k]@),
        decreases v.len() - i,
    {
        out.push(text::to_lowercase(v[i].as_str()));
        i = i + 1;
    }
    proof {
        assert(text::views(out@) =~= lowered(text::views(v@)));
    }
    out
}

fn keep_valid(v: &Vec<String>) -> (r: Vec<String>)
    ensures
        text::views(r@) == valid_patterns(text::views(v@)),
{
    let ghost all = text::views(v@);
    let mut out: Vec<String> = Vec::new();
    let mut i: usize = 0;
    proof {
        assert(all.take(0) =~= Seq::empty());
        assert(text::views(out@) =~= Seq::empty());
    }
    while i < v.len()
        invariant
            i <= v.len(),
            all == text::views(v@),
            text::views(out@) == valid_patterns(all.take(i as int)),
        decreases v.len() - i,
    {
        let ghost before = text::views(out@);
        proof {
            assert(all.take(i + 1).drop_last() =~= all.take(i as int));
            assert(all.take(i + 1).last() == v@[i as int]@);
        }
        if pattern::compiles(v[i].as_str()) {
            out.push(v[i].clone());
            proof {
                assert(text::views(out@) =~= before.push(v@[i as int]@));
            }
        }
        i = i + 1;
    }
    proof {
        assert(all.take(i as int) =~= all);
    }
    out
}

fn drop_word(v: &Vec<String>, w: &str) -> (r: Vec<String>)
    ensures
        text::views(r@) == without_word(text::views(v@), w@),
{
    let ghost all = text::views(v@);
    let mut out: Vec<String> = Vec::new();
    let mut i: usize = 0;
    proof {
        assert(all.take(0) =~= Seq::empty());
        assert(text::views(out@) =~= Seq::empty());
    }
    while i < v.len()
        invariant
            i <= v.len(),
            all == text::views(v@),
            text::views(out@) == without_word(all.take(i as int), w@),
        decreases v.len() - i,
    {
        let ghost before = text::views(out@);
        proof {
            assert(all.take(i + 1).drop_last() =~= all.take(i as int));
            assert(all.take(i + 1).last() == v@[i as int]@);
        }
        if !text::same(v[i].as_str(), w) {
            out.push(v[i].clone());
            proof {
                assert(text::views(out@) =~= before.push(v@[i as int]@));
            }
        }
        i = i + 1;
    }
    proof {
        assert(all.take(i as int) =~= all);
    }
    out
}

fn drop_domain(v: &Vec<String>, d: &str) -> (r: Vec<String>)
    ensures
        text::views(r@) == without_domain(text::views(v@), d@),
{
    let ghost all = text::views(v@);
    let mut out: Vec<String> = Vec::new();
    let mut i: usize = 0;
    proof {
        assert(all.take(0) =~= Seq::empty());
        assert(text::views(out@) =~= Seq::empty());
    }
    while i < v.len()
        invariant
            i <= v.len(),
            all == text::views(v@),
            text::views(out@) == without_domain(all.take(i as int), d@),
        decreases v.len() - i,
    {
        let ghost before = text::views(out@);
        proof {
            assert(all.take(i + 1).drop_last() =~= all.take(i as int));
            assert(all.take(i + 1).last() == v@[i as int]@);
        }
        let lower = text::to_lowercase(v[i].as_str());
        if !text::same(lower.as_str(), d) {
            out.push(v[i].clone());
            proof {
                assert(text::views(out@) =~= before.push(v@[i as int]@));
            }
        }
        i = i + 1;
    }
    proof {
        assert(all.take(i as int) =~= all);
    }
    out
}

fn add_one(n: u64) -> (r: u64)
    ensures
        r == counted(n),
{
    if n < 0xffff_ffff_ffff_ffff {
        n + 1
    } else {
        n
    }
}

impl AutoModEngine {
    /// Sets up the engine: banned words in lower case, patterns as far as they are regular
    /// expressions, and what was saved.
    pub fn new(cfg: &AutoModSection, saved: Option<AutoModState>, now: u64) -> (r: Self)
        ensures
            r@ == (EngineView {
                enabled: cfg.enabled,
                words: lowered(text::views(cfg.banned_words@)),
                patterns: valid_patterns(text::views(cfg.banned_patterns@)),
                allowlist: text::views(cfg.link_allowlist@),
                users: match saved {
                    Some(s) => table::rows_map(table::pair_views(s.users@)),
                    None => Map::empty(),
                },
                total_warns: match saved {
                    Some(s) => s.total_warns,
                    None => 0,
                },
                total_kicks: match saved {
                    Some(s) => s.total_kicks,
                    None => 0,
                },
                total_bans: match saved {
                    Some(s) => s.total_bans,
                    None => 0,
                },
                enabled_at: now,
                last_persist: now,
            }),
    {
        let words = lower_all(&cfg.banned_words);
        let patterns = keep_valid(&cfg.banned_patterns);
        let allowlist = text::copy_strings(&cfg.link_allowlist);
        match saved {
            Some(s) => AutoModEngine {
                enabled: cfg.enabled,
                words,
                patterns,
                allowlist,
                users: Table::from_rows(s.users),
                total_warns: s.total_warns,
                total_kicks: s.total_kicks,
                total_bans: s.total_bans,
                enabled_at: now,
                last_persist: now,
            },
            None => AutoModEngine {
                enabled: cfg.enabled,
                words,
                patterns,
                allowlist,
                users: Table::new(),
                total_warns: 0,
                total_kicks: 0,
                total_bans: 0,
                enabled_at: now,
                last_persist: now,
            },
        }
    }

    /// Whether auto-moderation is on.
    pub fn is_enabled(&self) -> (r: bool)
        ensures
            r == self@.enabled,
    {
        self.enabled
    }

    /// Switches auto-moderation on or off. Switching it on opens the log-only window.
    pub fn set_enabled(&mut self, on: bool, now: u64)
        ensures
            final(self)@ == old(self)@.switched(on, now),
    {
        if on && !self.enabled {
            self.enabled_at = now;
        }
        self.enabled = on;
    }

    /// Whether nothing is enforced yet: in the first minutes after auto-moderation was switched on.
    pub fn in_dry_run(&self, cfg: &AutoModSection, now: u64) -> (r: bool)
        ensures
            r == self@.dry(*cfg, now),
    {
        cfg.dry_run_minutes > 0 && (clock::elapsed(now, self.enabled_at) as u128) < (
        cfg.dry_run_minutes as u128) * 60
    }

    /// Bans a word; whether it is a new one.
    pub fn add_word(&mut self, word: &str) -> (r: bool)
        ensures
            r == (entry(word@).len() > 0 && !old(self)@.words.contains(entry(word@))),
            final(self)@ == if r {
                EngineView { words: old(self)@.words.push(entry(word@)), ..old(self)@ }
            } else {
                old(self)@
            },
    {
        let ghost before = self@;
        let w = text::to_lowercase(text::trim(word));
        if w.as_str().is_empty() || text::list_contains(&self.words, w.as_str()) {
            return false;
        }
        self.words.push(w);
        proof {
            assert(self@.words =~= before.words.push(entry(word@)));
            assert(self@ =~= (EngineView { words: before.words.push(entry(word@)), ..before }));
        }
        true
    }

    /// Allows a word again; whether it was banned.
    pub fn remove_word(&mut self, word: &str) -> (r: bool)
        ensures
            final(self)@ == (EngineView {
                words: without_word(old(self)@.words, entry(word@)),
                ..old(self)@
            }),
            r == (final(self)@.words.len() != old(self)@.words.len()),
    {
        let w = text::to_lowercase(text::trim(word));
        let before: usize = self.words.len();
        self.words = drop_word(&self.words, w.as_str());
        self.words.len() != before
    }

    /// The banned words.
    pub fn list_words(&self) -> (r: Vec<String>)
        ensures
            text::views(r@) == self@.words,
    {
        text::copy_strings(&self.words)
    }

    /// Allows links to a domain; whether it is a new one.
    pub fn add_allowlist(&mut self, domain: &str) -> (r: bool)
        ensures
            r == (entry(domain@).len() > 0 && !lowered(old(self)@.allowlist).contains(
                entry(domain@),
            )),
            final(self)@ == if r {
                EngineView { allowlist: old(self)@.allowlist.push(entry(domain@)), ..old(self)@ }
            } else {
                old(self)@
            },
    {
        let ghost before = self@;
        let d = text::to_lowercase(text::trim(domain));
        if d.as_str().is_empty() {
            return false;
        }
        let low = lower_all(&self.allowlist);
        if text::list_contains(&low, d.as_str()) {
            return false;
        }
        self.allowlist.push(d);
        proof {
            assert(self@.allowlist =~= before.allowlist.push(entry(domain@)));
            assert(self@ =~= (EngineView {
                allowlist: before.allowlist.push(entry(domain@)),
                ..before
            }));
        }
        true
    }

    /// No longer allows links to a domain; whether it was allowed.
    pub fn remove_allowlist(&mut self, domain: &str) -> (r: bool)
        ensures
            final(self)@ == (EngineView {
                allowlist: without_domain(old(self)@.allowlist, entry(domain@)),
                ..old(self)@
            }),
            r == (final(self)@.allowlist.len() != old(self)@.allowlist.len()),
    {
        let d = text::to_lowercase(text::trim(domain));
        let before: usize = self.allowlist.len();
        self.allowlist = drop_domain(&self.allowlist, d.as_str());
        self.allowlist.len() != before
    }

    /// The domains that links may lead to.
    pub fn list_allowlist(&self) -> (r: Vec<String>)
        ensures
            text::views(r@) == self@.allowlist,
    {
        text::copy_strings(&self.allowlist)
    }

    /// The banned patterns.
    pub fn list_patterns(&self) -> (r: Vec<String>)
        ensures
            text::views(r@) == self@.patterns,
    {
        text::copy_strings(&self.patterns)
    }

    /// Takes a user's record out, or an empty one.
    fn take_record(&mut self, npub: &str) -> (r: UserRecord)
        ensures
            r@ == old(self)@.record(npub@),
            final(self)@ == (EngineView { users: old(self)@.users.remove(npub@), ..old(self)@ }),
    {
        match self.users.remove(npub) {
            Some(u) => u,
            None => {
                let u = UserRecord {
                    messages: Vec::new(),
                    violations: Vec::new(),
                    join_time: None,
                    msgs_since_join: 0,
                };
                proof {
                    assert(u@ =~= automod::no_record());
                }
                u
            },
        }
    }

    /// Puts a user's record back.
    fn put_record(&mut self, npub: &str, u: UserRecord)
        ensures
            final(self)@ == old(self)@.with_record(npub@, u@),
    {
        self.users.insert(npub, u);
    }

    /// Notes that a user joined.
    pub fn record_join(&mut self, npub: &str, now: u64)
        ensures
            final(self)@ == old(self)@.with_record(
                npub@,
                (UserView {
                    join_time: Some(now),
                    msgs_since_join: 0,
                    ..old(self)@.record(npub@)
                }),
            ),
    {
        let ghost before = self@;
        let mut u = self.take_record(npub);
        u.join_time = Some(now);
        u.msgs_since_join = 0;
        self.put_record(npub, u);
        proof {
            assert(self@.users =~= before.users.insert(npub@, u@));
            assert(self@ =~= before.with_record(npub@, u@));
        }
    }

    /// Forgets a user.
    pub fn forget_user(&mut self, npub: &str)
        ensures
            final(self)@ == (EngineView { users: old(self)@.users.remove(npub@), ..old(self)@ }),
    {
        let _ = self.users.remove(npub);
    }

    /// Clears what a user did; whether there was anything.
    pub fn reset_user(&mut self, npub: &str) -> (r: bool)
        ensures
            r == (old(self)@.record(npub@).violations.len() > 0 || old(self)@.record(
                npub@,
            ).messages.len() > 0),
            final(self)@ == if old(self)@.users.dom().contains(npub@) {
                old(self)@.with_record(
                    npub@,
                    UserView {
                        messages: Seq::empty(),
                        violations: Seq::empty(),
                        msgs_since_join: 0,
                        ..old(self)@.record(npub@)
                    },
                )
            } else {
                old(self)@
            },
    {
        let ghost before = self@;
        if !self.users.contains_key(npub) {
            return false;
        }
        let mut u = self.take_record(npub);
        let had = u.violations.len() > 0 || u.messages.len() > 0;
        u.violations = Vec::new();
        u.messages = Vec::new();
        u.msgs_since_join = 0;
        self.put_record(npub, u);
        proof {
            assert(u@ =~= (UserView {
                messages: Seq::empty(),
                violations: Seq::empty(),
                msgs_since_join: 0,
                ..before.record(npub@)
            }));
            assert(self@.users =~= before.users.insert(npub@, u@));
            assert(self@ =~= before.with_record(npub@, u@));
        }
        had
    }

    /// Whether a sender is exempt from all checks.
    pub fn is_immune(
        &self,
        auth: Option<&AuthManager>,
        bot_npub: &str,
        npub: &str,
        community_id: Option<&str>,
        is_admin: bool,
        strict_mode: bool,
    ) -> (r: bool)
        ensures
            r == exempt(
                auth::opt_auth(auth),
                bot_npub@,
                npub@,
                text::opt_str_view(community_id),
                is_admin,
                strict_mode,
            ),
    {
        if npub.is_empty() {
            return false;
        }
        if text::same(npub, bot_npub) {
            return true;
        }
        if let Some(a) = auth {
            if a.is_owner(npub) {
                return true;
            }
            if !strict_mode && a.is_authorized(npub, community_id) {
                return true;
            }
        }
        is_admin
    }

    /// Users seen, and how many were warned, kicked and banned.
    pub fn stats(&self) -> (r: (usize, u64, u64, u64))
        ensures
            r.0 == self@.users.dom().len(),
            r.1 == self@.total_warns,
            r.2 == self@.total_kicks,
            r.3 == self@.total_bans,
    {
        (self.users.len(), self.total_warns, self.total_kicks, self.total_bans)
    }

    /// Scans a message: what its sender did is updated with it, and the verdict follows from what
    /// the rules find. Nothing is enforced.
    pub fn check_message(
        &mut self,
        cfg: &AutoModSection,
        npub: &str,
        message: &str,
        now: u64,
    ) -> (r: AutoModVerdict)
        ensures
            final(self)@ == scanned(old(self)@, *cfg, npub@, message@, now),
            verdict_on(old(self)@, *cfg, npub@, message@, now, r),
    {
        let ghost before = self@;
        let dry = self.in_dry_run(cfg, now);
        let mut u = self.take_record(npub);
        automod::remember(&mut u, cfg, message, now);
        let f = automod::examine(
            &u,
            &self.words,
            &self.patterns,
            &self.allowlist,
            cfg,
            message,
            now,
        );
        let prior: usize = u.violations.len();
        proof {
            let known = automod::remembered(before.record(npub@), *cfg, message@, now);
            assert(u@ == known);
            assert(known.violations.len() == prior);
        }
        self.put_record(npub, u);
        proof {
            assert(self@.users =~= before.users.insert(npub@, u@));
            assert(self@ =~= before.with_record(npub@, u@));
        }
        automod::judge(cfg, &f, prior, dry)
    }
}

/// The engine after a message was scanned.
pub open spec fn scanned(
    e: EngineView,
    cfg: AutoModSection,
    npub: Seq<char>,
    message: Seq<char>,
    now: u64,
) -> EngineView {
    e.with_record(npub, automod::remembered(e.record(npub), cfg, message, now))
}

/// What the verdict on a message is.
pub open spec fn verdict_on(
    e: EngineView,
    cfg: AutoModSection,
    npub: Seq<char>,
    message: Seq<char>,
    now: u64,
    v: AutoModVerdict,
) -> bool {
    let u = automod::remembered(e.record(npub), cfg, message, now);
    let f = automod::found(u, e.filters(), cfg, message, now);
    let score = automod::score_of(cfg, f);
    &&& v.score == score
    &&& text::views(v.rules_triggered@) == automod::fired_rules(cfg, f) + automod::named(
        automod::escalates(cfg, score, u.violations.len()),
        "escalation"@,
    )
    &&& v.action == automod::final_action(cfg, score, u.violations.len())
    &&& v.dry_run == e.dry(cfg, now)
}

// ---------------------------------------------------------------------------
// History
// ---------------------------------------------------------------------------

/// Whether an npub can be shortened at bytes 10 and 4 from its end.
pub open spec fn shortens(npub: Seq<char>) -> bool {
    text::byte_len(npub) > 16 ==> text::at_boundary(npub, 10) && text::at_boundary(
        npub,
        text::byte_len(npub) - 4,
    )
}

/// The first ten and the last four bytes of an npub of more than sixteen.
pub open spec fn shortened(npub: Seq<char>) -> Seq<char> {
    if text::byte_len(npub) > 16 {
        text::first_bytes(npub, 10) + "…"@ + text::bytes_from(npub, text::byte_len(npub) - 4)
    } else {
        npub
    }
}

/// Shortens an npub for people to read.
pub fn short_npub(npub: &str) -> (r: String)
    requires
        shortens(npub@),
    ensures
        r@ == shortened(npub@),
{
    let n: usize = text::len_bytes(npub);
    if n > 16 {
        let (head, _) = text::split_at_byte(npub, 10);
        let (_, tail) = text::split_at_byte(npub, n - 4);
        text::cat3(head, "…", tail)
    } else {
        npub.to_owned()
    }
}

fn can_shorten(npub: &str) -> (r: bool)
    ensures
        r == shortens(npub@),
{
    let n: usize = text::len_bytes(npub);
    n <= 16 || (npub.is_char_boundary(10) && npub.is_char_boundary(n - 4))
}

/// A Unix time in UTC, or its number where it is out of range.
pub open spec fn time_text(ts: u64) -> Seq<char> {
    match clock::utc_text(ts as i64, "%Y-%m-%d %H:%M UTC"@) {
        Some(t) => t,
        None => number::decimal(ts as nat),
    }
}

/// Writes a Unix time.
pub fn fmt_ts(ts: u64) -> (r: String)
    ensures
        r@ == time_text(ts),
{
    match clock::format_utc(#[verifier::truncate] (ts as i64), "%Y-%m-%d %H:%M UTC") {
        Some(t) => t,
        None => number::show(ts),
    }
}

/// A violation of a user as a line of the history.
pub open spec fn history_line(user: Seq<char>, v: ViolationView) -> Seq<char> {
    time_text(v.at) + " — "@ + shortened(user) + " (score "@ + number::decimal(v.score as nat)
        + ", "@ + v.action + ") ["@ + v.rules + "]"@
}

/// The violations of a user with their times, as lines.
pub open spec fn user_history(user: Seq<char>, v: Seq<ViolationView>) -> Seq<(u64, Seq<char>)> {
    v.map_values(|w: ViolationView| (w.at, history_line(user, w)))
}

/// The violations of all users, or of one, with their times.
pub open spec fn full_history(
    rows: Seq<(Seq<char>, UserView)>,
    npub: Option<Seq<char>>,
) -> Seq<(u64, Seq<char>)>
    decreases rows.len(),
{
    if rows.len() == 0 {
        Seq::empty()
    } else if npub is Some && npub->0 != rows.last().0 {
        full_history(rows.drop_last(), npub)
    } else {
        full_history(rows.drop_last(), npub) + user_history(
            rows.last().0,
            rows.last().1.violations,
        )
    }
}

/// The times of lines.
pub open spec fn line_times(lines: Seq<(u64, Seq<char>)>) -> Seq<i128> {
    lines.map_values(|l: (u64, Seq<char>)| l.0 as i128)
}

/// `shown` are the latest `limit` of the lines, the latest first.
pub open spec fn latest(
    lines: Seq<(u64, Seq<char>)>,
    limit: usize,
    shown: Seq<Seq<char>>,
) -> bool {
    exists|order: Seq<usize>| #[trigger]
        order::sorts(order, line_times(lines), false) && shown.len() == if limit < lines.len() {
            limit as nat
        } else {
            lines.len()
        } && forall|k: int| 0 <= k < shown.len() ==> #[trigger] shown[k] == lines[order[k] as int].1
}

/// Whether the name of every user with violations, or of the one asked for, can be shortened.
pub open spec fn names_shorten(users: Map<Seq<char>, UserView>, npub: Option<Seq<char>>) -> bool {
    forall|n: Seq<char>| #[trigger]
        users.dom().contains(n) && (npub is None || npub->0 == n) && users[n].violations.len() > 0
            ==> shortens(n)
}

/// `shown` are the latest violations of all users, or of one, the latest first. Violations of the
/// same second stand in any order of their users.
pub open spec fn shows_history(
    users: Map<Seq<char>, UserView>,
    npub: Option<Seq<char>>,
    limit: usize,
    shown: Seq<Seq<char>>,
) -> bool {
    exists|rows: Seq<(Seq<char>, UserView)>| #[trigger]
        table::lists_map(rows, users) && latest(full_history(rows, npub), limit, shown)
}

fn line_of(user: &str, v: &ViolationRecord) -> (r: String)
    requires
        shortens(user@),
    ensures
        r@ == history_line(user@, v@),
{
    let mut out = fmt_ts(v.at);
    out.push_str(" — ");
    out.push_str(short_npub(user).as_str());
    out.push_str(" (score ");
    out.push_str(number::show(v.score as u64).as_str());
    out.push_str(", ");
    out.push_str(v.action.as_str());
    out.push_str(") [");
    out.push_str(v.rules.as_str());
    out.push_str("]");
    out
}

/// Lines with their times as pairs of views.
pub open spec fn timed_views(v: Seq<(u64, String)>) -> Seq<(u64, Seq<char>)> {
    v.map_values(|l: (u64, String)| (l.0, l.1@))
}

fn add_history(out: &mut Vec<(u64, String)>, user: &str, v: &Vec<ViolationRecord>)
    requires
        v@.len() > 0 ==> shortens(user@),
    ensures
        timed_views(final(out)@) == timed_views(old(out)@) + user_history(
            user@,
            automod::violation_views(v@),
        ),
{
    let ghost start = timed_views(out@);
    let ghost all = automod::violation_views(v@);
    let mut i: usize = 0;
    proof {
        assert(user_history(user@, all.take(0)) =~= Seq::empty());
        assert(start =~= start + user_history(user@, all.take(0)));
    }
    while i < v.len()
        invariant
            i <= v.len(),
            v@.len() > 0 ==> shortens(user@),
            all == automod::violation_views(v@),
            timed_views(out@) == start + user_history(user@, all.take(i as int)),
        decreases v.len() - i,
    {
        let ghost before = timed_views(out@);
        let line = line_of(user, &v[i]);
        out.push((v[i].at, line));
        proof {
            assert(timed_views(out@) =~= before.push((v@[i as int].at, line@)));
            assert(user_history(user@, all.take(i + 1)) =~= user_history(
                user@,
                all.take(i as int),
            ).push((v@[i as int].at, line@)));
            assert(timed_views(out@) =~= start + user_history(user@, all.take(i + 1)));
        }
        i = i + 1;
    }
    proof {
        assert(all.take(i as int) =~= all);
    }
}

impl AutoModEngine {
    /// Whether the history of all users, or of one, can be shown.
    pub fn history_readable(&self, npub: Option<&str>) -> (r: bool)
        ensures
            r == names_shorten(self@.users, text::opt_str_view(npub)),
    {
        let ghost rows = self.users.listed();
        let ghost which = text::opt_str_view(npub);
        let count: usize = self.users.len();
        let mut i: usize = 0;
        proof {
            table::lemma_rows_map(rows);
        }
        while i < count
            invariant
                i <= count,
                count == rows.len(),
                rows == self.users.listed(),
                which == text::opt_str_view(npub),
                self@.users == table::rows_map(rows),
                forall|k: int|
                    0 <= k < rows.len() ==> #[trigger] table::rows_map(rows).dom().contains(
                        rows[k].0,
                    ) && table::rows_map(rows)[rows[k].0] == rows[k].1,
                forall|k: int|
                    0 <= k < i && (which is None || which->0 == (#[trigger] rows[k]).0)
                        && rows[k].1.violations.len() > 0 ==> shortens(rows[k].0),
            decreases count - i,
        {
            let user = self.users.key_at(i);
            let wanted: bool = match npub {
                Some(n) => text::same(n, user),
                None => true,
            };
            let u: &UserRecord = self.users.value_at(i);
            proof {
                assert(u@ == rows[i as int].1);
                assert(u@.violations.len() == u.violations.len());
            }
            if wanted && u.violations.len() > 0 && !can_shorten(user) {
                proof {
                    assert(self@.users.dom().contains(rows[i as int].0));
                }
                return false;
            }
            i = i + 1;
        }
        proof {
            table::lemma_rows_map(rows);
            assert forall|n: Seq<char>| #[trigger]
                self@.users.dom().contains(n) && (which is None || which->0 == n)
                    && self@.users[n].violations.len() > 0 implies shortens(n) by {
                let k = choose|k: int| 0 <= k < rows.len() && (#[trigger] rows[k]).0 == n;
                assert(table::rows_map(rows).dom().contains(rows[k].0));
            }
        }
        true
    }

    /// The latest violations of all users, or of one, the latest first.
    pub fn history(&self, npub: Option<&str>, limit: usize) -> (r: Vec<String>)
        requires
            names_shorten(self@.users, text::opt_str_view(npub)),
        ensures
            shows_history(self@.users, text::opt_str_view(npub), limit, text::views(r@)),
    {
        let ghost rows = self.users.listed();
        let ghost which = text::opt_str_view(npub);
        let count: usize = self.users.len();
        proof {
            table::lemma_rows_map(rows);
        }
        let mut lines: Vec<(u64, String)> = Vec::new();
        let mut i: usize = 0;
        proof {
            assert(rows.take(0) =~= Seq::empty());
            assert(timed_views(lines@) =~= Seq::empty());
        }
        while i < count
            invariant
                i <= count,
                count == rows.len(),
                rows == self.users.listed(),
                names_shorten(self@.users, which),
                self@.users == table::rows_map(rows),
                forall|k: int|
                    0 <= k < rows.len() ==> #[trigger] table::rows_map(rows).dom().contains(
                        rows[k].0,
                    ) && table::rows_map(rows)[rows[k].0] == rows[k].1,
                which == text::opt_str_view(npub),
                timed_views(lines@) == full_history(rows.take(i as int), which),
            decreases count - i,
        {
            let user = self.users.key_at(i);
            proof {
                assert(rows.take(i + 1).drop_last() =~= rows.take(i as int));
                assert(rows.take(i + 1).last() == rows[i as int]);
                assert(table::rows_map(rows).dom().contains(rows[i as int].0));
            }
            let wanted: bool = match npub {
                Some(n) => text::same(n, user),
                None => true,
            };
            if wanted {
                let u: &UserRecord = self.users.value_at(i);
                proof {
                    assert(u@.violations.len() == u.violations.len());
                    assert(self@.users.dom().contains(user@));
                }
                add_history(&mut lines, user, &u.violations);
            }
            i = i + 1;
        }
        proof {
            assert(rows.take(i as int) =~= rows);
        }
        let ghost all = timed_views(lines@);
        let mut keys: Vec<i128> = Vec::new();
        let mut j: usize = 0;
        while j < lines.len()
            invariant
                j <= lines.len(),
                keys.len() == j,
                all == timed_views(lines@),
                forall|k: int| 0 <= k < j ==> #[trigger] keys@[k] == all[k].0 as i128,
            decreases lines.len() - j,
        {
            keys.push(lines[j].0 as i128);
            j = j + 1;
        }
        proof {
            assert(keys@ =~= line_times(all));
        }
        let order = order::sort_order(&keys, false);
        let mut out: Vec<String> = Vec::new();
        let mut n: usize = 0;
        while n < order.len() && n < limit
            invariant
                n <= order.len(),
                n <= limit,
                out.len() == n,
                order.len() == lines.len(),
                all == timed_views(lines@),
                order::sorts(order@, line_times(all), false),
                forall|k: int| 0 <= k < n ==> (#[trigger] out@[k])@ == all[order@[k] as int].1,
            decreases order.len() - n,
        {
            let at: usize = order[n];
            proof {
                assert(all[at as int].1 == lines@[at as int].1@);
            }
            out.push(lines[at].1.clone());
            n = n + 1;
        }
        proof {
            let shown = text::views(out@);
            assert forall|k: int| 0 <= k < shown.len() implies #[trigger] shown[k]
                == all[order@[k] as int].1 by {
                assert(out@[k]@ == all[order@[k] as int].1);
            }
            assert(latest(all, limit, shown));
            assert(table::lists_map(rows, self@.users));
        }
        out
    }
}

// ---------------------------------------------------------------------------
// Recording and saving
// ---------------------------------------------------------------------------

fn copy_user(u: &UserRecord) -> (r: UserRecord)
    ensures
        r@ == u@,
{
    let mut messages: Vec<MsgRecord> = Vec::new();
    let mut i: usize = 0;
    while i < u.messages.len()
        invariant
            i <= u.messages.len(),
            messages.len() == i,
            forall|k: int| 0 <= k < i ==> (#[trigger] messages@[k])@ == u.messages@[k]@,
        decreases u.messages.len() - i,
    {
        let m = &u.messages[i];
        messages.push(MsgRecord { at: m.at, normalized: m.normalized.clone() });
        i = i + 1;
    }
    let mut violations: Vec<ViolationRecord> = Vec::new();
    let mut j: usize = 0;
    while j < u.violations.len()
        invariant
            j <= u.violations.len(),
            violations.len() == j,
            forall|k: int| 0 <= k < j ==> (#[trigger] violations@[k])@ == u.violations@[k]@,
        decreases u.violations.len() - j,
    {
        violations.push(automod::copy_violation(&u.violations[j]));
        j = j + 1;
    }
    let r = UserRecord {
        messages,
        violations,
        join_time: u.join_time,
        msgs_since_join: u.msgs_since_join,
    };
    proof {
        assert(r@.messages =~= u@.messages);
        assert(r@.violations =~= u@.violations);
    }
    r
}

impl AutoModEngine {
    /// Remembers a violation, and counts it unless nothing is enforced.
    pub fn record_violation(&mut self, npub: &str, verdict: &AutoModVerdict, now: u64)
        ensures
            final(self)@ == recorded(old(self)@, npub@, *verdict, now),
    {
        let ghost before = self@;
        let mut u = self.take_record(npub);
        let ghost known = u@;
        u.violations.push(
            ViolationRecord {
                at: now,
                rules: text::join(&verdict.rules_triggered, ","),
                score: verdict.score,
                action: verdict.action.as_str().to_owned(),
            },
        );
        proof {
            assert(u@.violations =~= known.violations.push(violation(*verdict, now)));
            assert(u@ =~= (UserView {
                violations: known.violations.push(violation(*verdict, now)),
                ..known
            }));
        }
        self.put_record(npub, u);
        proof {
            assert(self@.users =~= before.users.insert(npub@, u@));
        }
        if !verdict.dry_run {
            match verdict.action {
                AutoModAction::Warn => {
                    self.total_warns = add_one(self.total_warns);
                },
                AutoModAction::Kick => {
                    self.total_kicks = add_one(self.total_kicks);
                },
                AutoModAction::Ban => {
                    self.total_bans = add_one(self.total_bans);
                },
                AutoModAction::Nothing => {},
            }
        }
        proof {
            assert(self@ =~= recorded(before, npub@, *verdict, now));
        }
    }

    /// Whether the state is to be saved now; notes the time where it is.
    pub fn maybe_persist(&mut self, now: u64) -> (r: bool)
        ensures
            r == save_due(old(self)@, now),
            final(self)@ == save_noted(old(self)@, now),
    {
        if clock::elapsed(now, self.last_persist) < PERSIST_INTERVAL_SECS {
            return false;
        }
        self.last_persist = now;
        true
    }

    /// The state to save: what [`AutoModEngine::new`] takes back.
    pub fn persist(&self) -> (r: AutoModState)
        ensures
            table::rows_map(table::pair_views(r.users@)) == self@.users,
            r.total_warns == self@.total_warns,
            r.total_kicks == self@.total_kicks,
            r.total_bans == self@.total_bans,
    {
        let ghost rows = self.users.listed();
        let mut users: Vec<(String, UserRecord)> = Vec::new();
        let n: usize = self.users.len();
        let mut i: usize = 0;
        while i < n
            invariant
                i <= n,
                n == rows.len(),
                rows == self.users.listed(),
                users.len() == i,
                forall|k: int|
                    0 <= k < i ==> (#[trigger] users@[k]).0@ == rows[k].0 && users@[k].1@
                        == rows[k].1,
            decreases n - i,
        {
            let u: &UserRecord = self.users.value_at(i);
            users.push((self.users.key_at(i).to_owned(), copy_user(u)));
            i = i + 1;
        }
        proof {
            assert(table::pair_views(users@) =~= rows);
        }
        AutoModState {
            users,
            total_warns: self.total_warns,
            total_kicks: self.total_kicks,
            total_bans: self.total_bans,
        }
    }
}

// ---------------------------------------------------------------------------
// Laws
// ---------------------------------------------------------------------------

/// Switching auto-moderation on opens a log-only window of the configured length from then on,
/// however long ago the engine was set up; what is on already keeps its window.
pub proof fn law_window_opens_on_enabling(
    e: EngineView,
    cfg: AutoModSection,
    now: u64,
    later: u64,
)
    requires
        now <= later,
    ensures
        !e.enabled ==> (e.switched(true, now).dry(cfg, later) <==> later < now
            + cfg.dry_run_minutes * 60),
        e.enabled ==> e.switched(true, now) == e,
{
}

/// The bot and its owner are exempt whatever the mode.
pub proof fn law_bot_and_owner_exempt(
    auth: AuthView,
    bot: Seq<char>,
    npub: Seq<char>,
    community: Option<Seq<char>>,
    is_admin: bool,
    strict: bool,
)
    requires
        npub.len() > 0,
        npub == bot || npub == auth.owner,
    ensures
        exempt(Some(auth), bot, npub, community, is_admin, strict),
{
}

/// In strict mode nobody but the bot, its owner and admins is exempt.
pub proof fn law_strict_checks_authorized(
    auth: AuthView,
    bot: Seq<char>,
    npub: Seq<char>,
    community: Option<Seq<char>>,
)
    requires
        npub != bot,
        npub != auth.owner,
    ensures
        !exempt(Some(auth), bot, npub, community, false, true),
{
}

/// As long as nothing is enforced, no action is counted, but every violation is remembered.
pub proof fn law_dry_run_counts_nothing(
    e: EngineView,
    npub: Seq<char>,
    v: AutoModVerdict,
    now: u64,
)
    requires
        v.dry_run,
    ensures
        ({
            let after = recorded(e, npub, v, now);
            &&& after.total_warns == e.total_warns
            &&& after.total_kicks == e.total_kicks
            &&& after.total_bans == e.total_bans
            &&& after.record(npub).violations == e.record(npub).violations.push(violation(v, now))
        }),
{
}

/// What is done about one user leaves what is remembered of the others.
pub proof fn law_users_are_apart(
    e: EngineView,
    cfg: AutoModSection,
    npub: Seq<char>,
    other: Seq<char>,
    message: Seq<char>,
    v: AutoModVerdict,
    now: u64,
)
    requires
        npub != other,
    ensures
        scanned(e, cfg, npub, message, now).record(other) == e.record(other),
        recorded(e, npub, v, now).record(other) == e.record(other),
{
}

/// Allowing a word again undoes banning it.
pub proof fn law_word_removed_undoes_added(words: Seq<Seq<char>>, word: Seq<char>)
    requires
        !words.contains(entry(word)),
    ensures
        without_word(words.push(entry(word)), entry(word)) == words,
{
    let more = words.push(entry(word));
    assert(more.drop_last() =~= words);
    lemma_without_absent_word(words, entry(word));
}

proof fn lemma_without_absent_word(words: Seq<Seq<char>>, w: Seq<char>)
    requires
        !words.contains(w),
    ensures
        without_word(words, w) == words,
    decreases words.len(),
{
    if words.len() > 0 {
        let init = words.drop_last();
        assert(!init.contains(w)) by {
            if init.contains(w) {
                let i = choose|i: int| 0 <= i < init.len() && init[i] == w;
                assert(words[i] == w);
            }
        }
        assert(words[words.len() - 1] == words.last());
        lemma_without_absent_word(init, w);
        assert(words =~= init.push(words.last()));
    }
}

/// A word that was allowed again is no longer banned.
pub proof fn law_removed_word_is_gone(words: Seq<Seq<char>>, w: Seq<char>)
    ensures
        !without_word(words, w).contains(w),
    decreases words.len(),
{
    if words.len() > 0 {
        law_removed_word_is_gone(words.drop_last(), w);
        let rest = without_word(words.drop_last(), w);
        if words.last() != w {
            assert forall|i: int| 0 <= i < rest.push(words.last()).len() implies rest.push(
                words.last(),
            )[i] != w by {
                if i < rest.len() {
                    assert(rest[i] != w);
                }
            }
        }
    }
}

/// A verdict on a message does what its score and the sender's violations within the window call
/// for, this one not yet among them.
pub proof fn law_verdict_follows_thresholds(
    e: EngineView,
    cfg: AutoModSection,
    npub: Seq<char>,
    message: Seq<char>,
    now: u64,
    v: AutoModVerdict,
)
    requires
        verdict_on(e, cfg, npub, message, now, v),
    ensures
        ({
            let prior = e.record(npub).violations.filter(
                |w: ViolationView| w.at + cfg.escalation_window_secs >= now,
            ).len();
            let acts = v.score >= cfg.warn_threshold || v.score >= cfg.kick_threshold || v.score
                >= cfg.ban_threshold;
            let bans = v.score >= cfg.ban_threshold || 0 < cfg.escalation_ban_after <= prior + 1;
            let kicks = v.score >= cfg.kick_threshold || 0 < cfg.escalation_kick_after <= prior + 1;
            &&& v.action == AutoModAction::Nothing <==> !acts
            &&& v.action == AutoModAction::Ban <==> acts && bans
            &&& v.action == AutoModAction::Kick <==> acts && !bans && kicks
        }),
{
    automod::laws::law_memory_is_long_enough(e.record(npub), cfg, message, now);
}

/// A banned word in a message of ASCII letters costs at least five points, in whatever case it was
/// banned and sent, and the rule for banned words is named.
pub proof fn law_banned_word_is_punished(
    e: EngineView,
    cfg: AutoModSection,
    npub: Seq<char>,
    message: Seq<char>,
    now: u64,
    v: AutoModVerdict,
    word: Seq<char>,
)
    requires
        e.words.contains(entry(word)),
        entry(word).len() > 0,
        text::ascii_only(message),
        text::has_substring(text::str_lowercase(message), entry(word)),
        verdict_on(e, cfg, npub, message, now, v),
    ensures
        v.score >= 5,
        text::views(v.rules_triggered@).contains("banned_keyword"@),
{
    let u = automod::remembered(e.record(npub), cfg, message, now);
    let f = automod::found(u, e.filters(), cfg, message, now);
    let k = choose|k: int| 0 <= k < e.words.len() && e.words[k] == entry(word);
    lemma_word_hit(e.words, text::str_lowercase(message), k);
    automod::laws::law_rules_are_named(cfg, f);
    let rules = automod::fired_rules(cfg, f);
    let i = choose|i: int| 0 <= i < rules.len() && rules[i] == "banned_keyword"@;
    assert(text::views(v.rules_triggered@)[i] == rules[i]);
}

proof fn lemma_word_hit(words: Seq<Seq<char>>, lower: Seq<char>, k: int)
    requires
        0 <= k < words.len(),
        words[k].len() > 0,
        text::has_substring(lower, words[k]),
    ensures
        automod::words_hit(words, lower) > 0,
    decreases words.len(),
{
    if k < words.len() - 1 {
        assert(words.drop_last()[k] == words[k]);
        lemma_word_hit(words.drop_last(), lower, k);
    }
}

/// An action that is enforced is counted once, under its own name, and the violation is remembered
/// last, with its time, score, action and rules.
pub proof fn law_enforced_action_is_counted(
    e: EngineView,
    npub: Seq<char>,
    v: AutoModVerdict,
    now: u64,
)
    requires
        !v.dry_run,
        e.total_warns < u64::MAX && e.total_kicks < u64::MAX && e.total_bans < u64::MAX,
    ensures
        ({
            let after = recorded(e, npub, v, now);
            let mine = after.record(npub).violations;
            &&& after.total_warns == e.total_warns + if v.action is Warn { 1int } else { 0 }
            &&& after.total_kicks == e.total_kicks + if v.action is Kick { 1int } else { 0 }
            &&& after.total_bans == e.total_bans + if v.action is Ban { 1int } else { 0 }
            &&& mine.len() == e.record(npub).violations.len() + 1
            &&& mine.drop_last() == e.record(npub).violations
            &&& mine.last().at == now && mine.last().score == v.score
            &&& mine.last().action == v.action.name()
            &&& after.record(npub).messages == e.record(npub).messages
            &&& after.record(npub).join_time == e.record(npub).join_time
        }),
{
}

/// The state is saved at most once a minute: right after a save none is due for sixty seconds, and
/// then one is.
pub proof fn law_saved_once_a_minute(e: EngineView, now: u64, later: u64)
    requires
        save_due(e, now),
        now <= later,
    ensures
        save_due(save_noted(e, now), later) <==> later >= now + 60,
        !save_due(e, later) ==> save_noted(e, later) == e,
{
}

/// Who is exempt: the bot, admins, the owner, and outside strict mode everyone authorized there or
/// everywhere. A message from nobody is not.
pub proof fn law_who_is_exempt(
    auth: AuthView,
    bot: Seq<char>,
    npub: Seq<char>,
    community: Option<Seq<char>>,
    is_admin: bool,
    strict: bool,
)
    ensures
        exempt(None, bot, npub, community, is_admin, strict) <==> npub.len() > 0 && (npub == bot
            || is_admin),
        exempt(Some(auth), bot, npub, community, is_admin, strict) <==> npub.len() > 0 && (npub
            == bot || is_admin || npub == auth.owner || (!strict && (auth.global.contains(npub) || (
        community is Some && auth.communities.dom().contains(community->0)
            && auth.communities[community->0].contains(npub))))),
{
}

/// Allowing a word again takes that word away and no other, and a domain likewise, in whatever case
/// it was listed.
pub proof fn law_removal_takes_one(list: Seq<Seq<char>>, gone: Seq<char>, x: Seq<char>)
    ensures
        without_word(list, gone).contains(x) <==> list.contains(x) && x != gone,
        without_domain(list, gone).contains(x) <==> list.contains(x) && text::str_lowercase(x)
            != gone,
    decreases list.len(),
{
    if list.len() > 0 {
        let init = list.drop_last();
        let last = list.last();
        law_removal_takes_one(init, gone, x);
        lemma_push_contains(init, last, x);
        lemma_push_contains(without_word(init, gone), last, x);
        lemma_push_contains(without_domain(init, gone), last, x);
        assert(list =~= init.push(last));
    }
}

proof fn lemma_push_contains(list: Seq<Seq<char>>, last: Seq<char>, x: Seq<char>)
    ensures
        list.push(last).contains(x) <==> list.contains(x) || x == last,
{
    let more = list.push(last);
    if list.contains(x) {
        let k = choose|k: int| 0 <= k < list.len() && list[k] == x;
        assert(more[k] == x);
    }
    assert(more[list.len() as int] == last);
}

/// Patterns that are kept are those that compile, in order.
pub proof fn law_good_patterns_are_kept(v: Seq<Seq<char>>)
    ensures
        valid_patterns(v) == v.filter(|p: Seq<char>| pattern::pattern_compiles(p)),
{
    lemma_patterns_kept(v, |p: Seq<char>| pattern::pattern_compiles(p));
}

proof fn lemma_patterns_kept(v: Seq<Seq<char>>, p: spec_fn(Seq<char>) -> bool)
    requires
        forall|x: Seq<char>| #[trigger] p(x) <==> pattern::pattern_compiles(x),
    ensures
        valid_patterns(v) == v.filter(p),
    decreases v.len(),
{
    reveal(Seq::filter);
    if v.len() > 0 {
        lemma_patterns_kept(v.drop_last(), p);
    }
}

} // verus!
