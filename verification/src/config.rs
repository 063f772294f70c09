//! The bot's configuration as plain values, with its defaults.

use vstd::prelude::*;
use crate::json::{Json, JsonView};
use crate::text;

verus! {

/// Everything that `bot.toml` sets.
pub struct BotConfig {
    pub bot: BotSection,
    pub auth: AuthSection,
    pub communities: CommunitiesSection,
    pub scheduling: SchedulingSection,
    /// Feature flags for command groups.
    pub features: FeaturesSection,
    /// Cashu wallet settings.
    pub wallet: WalletSection,
    /// Claiming of zaps that npub.cash holds.
    pub npub_cash: NpubCashSection,
    /// Auto-moderation settings.
    pub automod: AutoModSection,
    /// Git repository monitor settings.
    pub git_monitor: GitMonitorSection,
    /// Community bootstrap settings.
    pub v2: V2Section,
    /// Free-form settings for custom handlers.
    pub custom: Option<Json>,
}

/// Command groups that can be switched on and off.
#[derive(Debug, Clone, Copy, PartialEq, Eq, Hash, Structural)]
pub enum Feature {
    Utility,
    Fun,
    Community,
    Nostr,
    Ai,
    Moderation,
    GitMonitor,
}

/// Which command groups are on. All are by default except `ai`.
pub struct FeaturesSection {
    pub utility: bool,
    pub fun: bool,
    pub community: bool,
    pub nostr: bool,
    pub ai: bool,
    pub moderation: bool,
    pub git_monitor: bool,
    /// Send command replies as threads.
    pub thread_replies: bool,
}

impl Default for FeaturesSection {
    fn default() -> (r: Self)
        ensures
            r.utility && r.fun && r.community && r.nostr && !r.ai && r.moderation,
            r.git_monitor && r.thread_replies,
    {
        FeaturesSection {
            utility: true,
            fun: true,
            community: true,
            nostr: true,
            ai: false,
            moderation: true,
            git_monitor: true,
            thread_replies: true,
        }
    }
}

impl FeaturesSection {
    /// The flag of a feature.
    pub open spec fn flag(&self, feature: Feature) -> bool {
        match feature {
            Feature::Utility => self.utility,
            Feature::Fun => self.fun,
            Feature::Community => self.community,
            Feature::Nostr => self.nostr,
            Feature::Ai => self.ai,
            Feature::Moderation => self.moderation,
            Feature::GitMonitor => self.git_monitor,
        }
    }

    /// Whether a command group is on.
    pub fn is_enabled(&self, feature: Feature) -> (r: bool)
        ensures
            r == self.flag(feature),
    {
        match feature {
            Feature::Utility => self.utility,
            Feature::Fun => self.fun,
            Feature::Community => self.community,
            Feature::Nostr => self.nostr,
            Feature::Ai => self.ai,
            Feature::Moderation => self.moderation,
            Feature::GitMonitor => self.git_monitor,
        }
    }
}

/// The bot's identity and profile.
pub struct BotSection {
    /// The private key; absent, empty or `auto` leaves the choice to the environment.
    pub nsec: Option<String>,
    /// `public`, `whitelist` or anything else for manual.
    pub invite_policy: String,
    /// Who may invite the bot under the whitelist policy.
    pub whitelist: Vec<String>,
    pub display_name: Option<String>,
    pub picture: Option<String>,
    pub banner: Option<String>,
    pub about: Option<String>,
    /// The Lightning address.
    pub lud16: Option<String>,
}

impl Default for BotSection {
    fn default() -> (r: Self)
        ensures
            r.nsec is None && r.display_name is None && r.picture is None,
            r.banner is None && r.about is None && r.lud16 is None,
            r.invite_policy@.len() == 0,
            r.whitelist@.len() == 0,
    {
        BotSection {
            nsec: None,
            invite_policy: String::new(),
            whitelist: Vec::new(),
            display_name: None,
            picture: None,
            banner: None,
            about: None,
            lud16: None,
        }
    }
}

/// Who owns the bot and who else may use guarded commands. Without an owner every command is
/// public.
pub struct AuthSection {
    pub owner: Option<String>,
    /// Seed list of authorized npubs.
    pub authorized: Vec<String>,
    /// Keep the authorized list across restarts.
    pub persist: bool,
    pub state_file: String,
}

fn default_persist_true() -> (r: bool)
    ensures
        r,
{
    true
}

fn default_state_file() -> (r: String)
    ensures
        r@ == "auth_state.json"@,
{
    "auth_state.json".to_owned()
}

impl Default for AuthSection {
    fn default() -> (r: Self)
        ensures
            r.owner is None,
            r.authorized@.len() == 0,
            r.persist,
            r.state_file@ == "auth_state.json"@,
    {
        AuthSection {
            owner: None,
            authorized: Vec::new(),
            persist: default_persist_true(),
            state_file: default_state_file(),
        }
    }
}

/// Communities to join on startup.
pub struct CommunitiesSection {
    pub join: Vec<String>,
}

impl Default for CommunitiesSection {
    fn default() -> (r: Self)
        ensures
            r.join@.len() == 0,
    {
        CommunitiesSection { join: Vec::new() }
    }
}

/// Intervals of scheduled tasks.
pub struct SchedulingSection {
    pub default_interval_secs: Option<u64>,
}

impl Default for SchedulingSection {
    fn default() -> (r: Self)
        ensures
            r.default_interval_secs is None,
    {
        SchedulingSection { default_interval_secs: None }
    }
}

/// Who may bring the bot into a community.
pub enum InvitePolicyConfig {
    Public,
    Whitelist(Vec<String>),
    Manual,
}

/// Cashu wallet settings.
pub struct WalletSection {
    pub enabled: bool,
    pub mint_url: String,
}

fn default_mint_url() -> (r: String)
    ensures
        r@ == "https://mint.minibits.cash/Bitcoin"@,
{
    "https://mint.minibits.cash/Bitcoin".to_owned()
}

impl Default for WalletSection {
    fn default() -> (r: Self)
        ensures
            !r.enabled,
            r.mint_url@ == "https://mint.minibits.cash/Bitcoin"@,
    {
        WalletSection { enabled: false, mint_url: default_mint_url() }
    }
}

/// Claiming of zaps that npub.cash holds for the bot.
pub struct NpubCashSection {
    pub enabled: bool,
    pub url: String,
    pub claim_interval_secs: u64,
}

impl Default for NpubCashSection {
    fn default() -> (r: Self)
        ensures
            !r.enabled,
            r.url@ == "https://npub.cash"@,
            r.claim_interval_secs == 300,
    {
        NpubCashSection {
            enabled: false,
            url: "https://npub.cash".to_owned(),
            claim_interval_secs: 300,
        }
    }
}

/// What auto-moderation counts as spam and what it does about it.
pub struct AutoModSection {
    pub enabled: bool,
    /// Check authorized users too.
    pub strict_mode: bool,
    /// Minutes after start in which nothing is enforced.
    pub dry_run_minutes: u64,
    pub burst_window_secs: u64,
    pub max_messages: u32,
    pub dedupe_window_secs: u64,
    pub max_duplicates: u32,
    pub max_links: u32,
    /// `off`, `flag` or `block`.
    pub link_action: String,
    pub link_allowlist: Vec<String>,
    pub max_mentions: u32,
    pub new_user_grace_secs: u64,
    pub new_user_max_msgs: u32,
    pub caps_min_length: usize,
    pub caps_threshold_pct: u32,
    pub max_msg_length: usize,
    pub warn_threshold: u32,
    pub kick_threshold: u32,
    pub ban_threshold: u32,
    /// Violations in the window after which the sender is kicked; 0 for never.
    pub escalation_kick_after: u32,
    /// Violations in the window after which the sender is banned; 0 for never.
    pub escalation_ban_after: u32,
    pub escalation_window_secs: u64,
    pub banned_words: Vec<String>,
    pub banned_patterns: Vec<String>,
    pub delete_spam_messages: bool,
    pub announce_actions: bool,
    pub announce_dm_owner: bool,
}

impl Default for AutoModSection {
    fn default() -> (r: Self)
        ensures
            !r.enabled && !r.strict_mode && r.dry_run_minutes == 60,
            r.burst_window_secs == 10 && r.max_messages == 5,
            r.dedupe_window_secs == 60 && r.max_duplicates == 3,
            r.max_links == 2 && r.link_action@ == "flag"@ && r.link_allowlist@.len() == 0,
            r.max_mentions == 5,
            r.new_user_grace_secs == 120 && r.new_user_max_msgs == 5,
            r.caps_min_length == 20 && r.caps_threshold_pct == 70 && r.max_msg_length == 2000,
            r.warn_threshold == 3 && r.kick_threshold == 5 && r.ban_threshold == 7,
            r.escalation_kick_after == 3 && r.escalation_ban_after == 5,
            r.escalation_window_secs == 86400,
            r.banned_words@.len() == 0 && r.banned_patterns@.len() == 0,
            r.delete_spam_messages && r.announce_actions && r.announce_dm_owner,
    {
        AutoModSection {
            enabled: false,
            strict_mode: false,
            dry_run_minutes: 60,
            burst_window_secs: 10,
            max_messages: 5,
            dedupe_window_secs: 60,
            max_duplicates: 3,
            max_links: 2,
            link_action: "flag".to_owned(),
            link_allowlist: Vec::new(),
            max_mentions: 5,
            new_user_grace_secs: 120,
            new_user_max_msgs: 5,
            caps_min_length: 20,
            caps_threshold_pct: 70,
            max_msg_length: 2000,
            warn_threshold: 3,
            kick_threshold: 5,
            ban_threshold: 7,
            escalation_kick_after: 3,
            escalation_ban_after: 5,
            escalation_window_secs: 86400,
            banned_words: Vec::new(),
            banned_patterns: Vec::new(),
            delete_spam_messages: true,
            announce_actions: true,
            announce_dm_owner: true,
        }
    }
}

/// Git repository monitor settings.
pub struct GitMonitorSection {
    pub enabled: bool,
    pub poll_interval_secs: u64,
    pub polite_sleep_ms: u64,
    pub max_repos_per_channel: usize,
    pub post_commits: bool,
    pub post_releases: bool,
    pub default_branch: String,
    pub gitlab_host: String,
    pub github_token: String,
    pub gitlab_token: String,
}

impl Default for GitMonitorSection {
    fn default() -> (r: Self)
        ensures
            r.enabled && r.poll_interval_secs == 300 && r.polite_sleep_ms == 1000,
            r.max_repos_per_channel == 10 && r.post_commits && r.post_releases,
            r.default_branch@ == "main"@,
            r.gitlab_host@ == "https://gitlab.com"@,
            r.github_token@.len() == 0 && r.gitlab_token@.len() == 0,
    {
        GitMonitorSection {
            enabled: true,
            poll_interval_secs: 300,
            polite_sleep_ms: 1000,
            max_repos_per_channel: 10,
            post_commits: true,
            post_releases: true,
            default_branch: "main".to_owned(),
            gitlab_host: "https://gitlab.com".to_owned(),
            github_token: String::new(),
            gitlab_token: String::new(),
        }
    }
}

/// Community bootstrap settings.
pub struct V2Section {
    /// Create a community when the bot is in none.
    pub auto_create: bool,
    pub community_name: Option<String>,
    /// Invite links to follow on startup.
    pub join_on_start: Vec<String>,
}

impl Default for V2Section {
    fn default() -> (r: Self)
        ensures
            !r.auto_create,
            r.community_name is None,
            r.join_on_start@.len() == 0,
    {
        V2Section { auto_create: false, community_name: None, join_on_start: Vec::new() }
    }
}

/// The value at the end of a path through nested objects.
pub open spec fn value_at(v: JsonView, path: Seq<Seq<char>>) -> Option<JsonView>
    decreases path.len(),
{
    if path.len() == 0 {
        Some(v)
    } else {
        match v.field(path[0]) {
            Some(w) => value_at(w, path.drop_first()),
            None => None,
        }
    }
}

/// The key that the configuration itself gives the bot.
pub open spec fn configured_nsec(nsec: Option<Seq<char>>) -> Option<Seq<char>> {
    match nsec {
        Some(n) => if n.len() > 0 && n != "auto"@ {
            Some(n)
        } else {
            None
        },
        None => None,
    }
}

impl BotConfig {
    /// The custom value under a dotted path.
    pub open spec fn custom_value(&self, key: Seq<char>) -> Option<JsonView> {
        match self.custom {
            Some(v) => value_at(v@, text::pieces(key, '.')),
            None => None,
        }
    }

    /// The private key: the configured one, else a nonempty one from the environment.
    pub open spec fn nsec_spec(&self, env: Option<Seq<char>>) -> Option<Seq<char>> {
        match configured_nsec(text::opt_view(self.bot.nsec)) {
            Some(n) => Some(n),
            None => match env {
                Some(e) => if e.len() > 0 {
                    Some(e)
                } else {
                    None
                },
                None => None,
            },
        }
    }

    /// Resolves the private key from the configuration and the value of `NSEC`.
    pub fn bot_nsec(&self, env: Option<&str>) -> (r: Option<String>)
        ensures
            text::opt_view(r) == self.nsec_spec(text::opt_str_view(env)),
    {
        if let Some(n) = &self.bot.nsec {
            if !n.as_str().is_empty() && !text::same(n.as_str(), "auto") {
                return Some(n.clone());
            }
        }
        match env {
            Some(e) => if e.is_empty() {
                None
            } else {
                Some(e.to_owned())
            },
            None => None,
        }
    }

    /// The invite policy that the configuration names.
    pub fn invite_policy(&self) -> (r: InvitePolicyConfig)
        ensures
            match r {
                InvitePolicyConfig::Public => self.bot.invite_policy@ == "public"@,
                InvitePolicyConfig::Whitelist(npubs) => self.bot.invite_policy@ == "whitelist"@
                    && self.bot.whitelist@.len() > 0 && text::views(npubs@) == text::views(
                    self.bot.whitelist@,
                ),
                InvitePolicyConfig::Manual => self.bot.invite_policy@ != "public"@ && !(
                self.bot.invite_policy@ == "whitelist"@ && self.bot.whitelist@.len() > 0),
            },
    {
        proof {
            reveal_strlit("public");
            reveal_strlit("whitelist");
        }
        if text::same(self.bot.invite_policy.as_str(), "public") {
            InvitePolicyConfig::Public
        } else if text::same(self.bot.invite_policy.as_str(), "whitelist")
            && self.bot.whitelist.len() > 0 {
            InvitePolicyConfig::Whitelist(text::copy_strings(&self.bot.whitelist))
        } else {
            InvitePolicyConfig::Manual
        }
    }

    /// The custom value under a dotted path such as `api_keys.github_token`.
    pub fn custom_get(&self, key: &str) -> (r: Option<&Json>)
        ensures
            match r {
                Some(v) => self.custom_value(key@) == Some(v@),
                None => self.custom_value(key@) is None,
            },
    {
        let parts = text::split_char(key, '.');
        let ghost path = text::views(parts@);
        match &self.custom {
            None => None,
            Some(root) => {
                let mut current: &Json = root;
                let mut i: usize = 0;
                proof {
                    assert(path.skip(0) =~= path);
                }
                while i < parts.len()
                    invariant
                        i <= parts.len(),
                        path == text::views(parts@),
                        value_at(root@, path) == value_at(current@, path.skip(i as int)),
                        self.custom_value(key@) == value_at(root@, path),
                    decreases parts.len() - i,
                {
                    proof {
                        assert(path.skip(i as int)[0] == parts@[i as int]@);
                        assert(path.skip(i as int).drop_first() =~= path.skip(i + 1));
                    }
                    match current.get(parts[i].as_str()) {
                        Some(next) => {
                            current = next;
                        },
                        None => {
                            return None;
                        },
                    }
                    i = i + 1;
                }
                Some(current)
            },
        }
    }

    /// The custom string under a dotted path.
    pub fn custom_string(&self, key: &str) -> (r: Option<String>)
        ensures
            text::opt_view(r) == match self.custom_value(key@) {
                Some(v) => v.text(),
                None => None,
            },
    {
        match self.custom_get(key) {
            Some(v) => match v.as_str() {
                Some(s) => Some(s.to_owned()),
                None => None,
            },
            None => None,
        }
    }
}

impl Default for BotConfig {
    fn default() -> (r: Self)
        ensures
            r.nsec_spec(None) is None,
            r.bot.nsec is None,
            r.bot.invite_policy@.len() == 0,
            r.auth.owner is None && r.auth.authorized@.len() == 0 && r.auth.persist,
            r.auth.state_file@ == "auth_state.json"@,
            r.communities.join@.len() == 0,
            !r.features.ai && r.features.utility && r.features.fun && r.features.community,
            r.features.nostr && r.features.moderation && r.features.git_monitor,
            !r.wallet.enabled && !r.automod.enabled && !r.npub_cash.enabled,
            r.custom is None,
    {
        BotConfig {
            bot: BotSection::default(),
            auth: AuthSection::default(),
            communities: CommunitiesSection::default(),
            scheduling: SchedulingSection::default(),
            features: FeaturesSection::default(),
            wallet: WalletSection::default(),
            npub_cash: NpubCashSection::default(),
            automod: AutoModSection::default(),
            git_monitor: GitMonitorSection::default(),
            v2: V2Section::default(),
            custom: None,
        }
    }
}

} // verus!
