//! Per-user protection against command spam: a sliding-window limit with lockouts, and a
//! cooldown for each command.
//!
//! Times are nanoseconds since an origin of the caller's choosing.

use vstd::prelude::*;
use crate::table::Table;
use crate::{clock, number, text};

verus! {

/// Commands allowed in a window by default.
pub const DEFAULT_BURST_LIMIT: u32 = 5;

/// The default window, in seconds.
pub const DEFAULT_BURST_WINDOW_SECS: u64 = 30;

/// The default lockout, in seconds.
pub const DEFAULT_COOLDOWN_SECS: u64 = 30;

/// The lockout of repeat offenders, in seconds.
pub const REPEAT_OFFENDER_COOLDOWN_SECS: u64 = 300;

/// Violations that make a repeat offender.
pub const REPEAT_OFFENDER_THRESHOLD: u32 = 3;

/// Nanoseconds in a second.
pub const NANOS: u128 = 1_000_000_000;

/// The cooldown of a command in seconds: ten for lookups at outside services, three for any
/// other command, none for text that is no command.
pub open spec fn cooldown_secs(command: Seq<char>) -> Option<u64> {
    if command == "!price"@ || command == "!weather"@ {
        Some(10)
    } else if command.len() > 0 && command[0] == '!' {
        Some(3)
    } else {
        None
    }
}

/// The cooldown of a command in seconds.
pub fn command_cooldown(command: &str) -> (r: Option<u64>)
    ensures
        r == cooldown_secs(command@),
{
    if text::same(command, "!price") || text::same(command, "!weather") {
        Some(10)
    } else if text::starts_with(command, "!") {
        proof {
            reveal_strlit("!");
            assert("!"@[0] == command@.subrange(0, 1)[0]);
        }
        Some(3)
    } else {
        proof {
            reveal_strlit("!");
            if command@.len() > 0 && command@[0] == '!' {
                assert("!"@ =~= command@.subrange(0, 1));
            }
        }
        None
    }
}

/// What the limiter decided.
pub enum RateLimitResult {
    /// The command may run.
    Allow,
    /// It may not; the reason is for the user.
    Deny(String),
}

/// The reason of a denial, if it is one.
pub open spec fn denial(r: RateLimitResult) -> Option<Seq<char>> {
    match r {
        RateLimitResult::Allow => None,
        RateLimitResult::Deny(why) => Some(why@),
    }
}

/// What the limiter knows of a user.
#[verifier::ext_equal]
pub struct UsageView {
    /// When recent commands ran.
    pub recent: Seq<u64>,
    /// When each command last ran.
    pub last_used: Map<Seq<char>, u64>,
    /// The end of a lockout.
    pub locked_until: Option<u128>,
    /// How often the user hit the limit.
    pub violations: u32,
}

/// What is known of a user who never ran a command.
pub open spec fn no_usage() -> UsageView {
    UsageView { recent: Seq::empty(), last_used: Map::empty(), locked_until: None, violations: 0 }
}

/// The limits.
pub struct LimitsView {
    pub burst_limit: u32,
    pub burst_window_secs: u64,
    pub cooldown_secs: u64,
}

/// The times that are younger than `window` nanoseconds.
pub open spec fn fresh(times: Seq<u64>, now: u64, window: int) -> Seq<u64>
    decreases times.len(),
{
    if times.len() == 0 {
        times
    } else if clock::age(now, times.last()) < window {
        fresh(times.drop_last(), now, window).push(times.last())
    } else {
        fresh(times.drop_last(), now, window)
    }
}

/// Whole seconds in a span, at least one.
pub open spec fn wait_secs(nanos: int) -> nat {
    if nanos / (NANOS as int) < 1 {
        1
    } else {
        (nanos / (NANOS as int)) as nat
    }
}

/// What a locked-out user is told.
pub open spec fn locked_message(nanos: int) -> Seq<char> {
    "⏳ You're rate-limited. Try again in "@ + number::decimal(wait_secs(nanos)) + "s."@
}

/// What a user is told of a command that ran too recently.
pub open spec fn cooldown_message(command: Seq<char>, nanos: int) -> Seq<char> {
    "⏳ !"@ + text::trimmed_start_char(command, '!') + " is on cooldown. Try again in "@
        + number::decimal(wait_secs(nanos)) + "s."@
}

/// What a user is told who hit the limit.
pub open spec fn burst_message(limits: LimitsView, cooldown: u64) -> Seq<char> {
    "🛑 Slow down! You've hit the rate limit ("@ + number::decimal(limits.burst_limit as nat)
        + " commands per "@ + number::decimal(limits.burst_window_secs as nat)
        + "s). Try again in "@ + number::decimal(cooldown as nat) + "s."@
}

/// One violation more, up to the largest count.
pub open spec fn one_more(violations: u32) -> u32 {
    if violations < u32::MAX {
        (violations + 1) as u32
    } else {
        violations
    }
}

/// The lockout in seconds after so many violations.
pub open spec fn lockout_secs(limits: LimitsView, violations: u32) -> u64 {
    if violations >= REPEAT_OFFENDER_THRESHOLD {
        REPEAT_OFFENDER_COOLDOWN_SECS
    } else {
        limits.cooldown_secs
    }
}

/// Whether a user is locked out.
pub open spec fn locked(u: UsageView, now: u64) -> bool {
    match u.locked_until {
        Some(until) => (now as int) < until,
        None => false,
    }
}

/// How many nanoseconds a command still has to wait; nothing where it may run.
pub open spec fn cooldown_left(u: UsageView, command: Seq<char>, now: u64) -> Option<int> {
    match cooldown_secs(command) {
        Some(secs) => if u.last_used.dom().contains(command) && clock::age(now, u.last_used[command])
            < secs * NANOS {
            Some(secs * NANOS - clock::age(now, u.last_used[command]))
        } else {
            None
        },
        None => None,
    }
}

/// What a command does to what is known of a user, and why it is denied, if it is.
pub open spec fn used(limits: LimitsView, u: UsageView, command: Seq<char>, now: u64) -> (
    UsageView,
    Option<Seq<char>>,
) {
    if locked(u, now) {
        (u, Some(locked_message(u.locked_until->0 - now)))
    } else {
        let free = UsageView { locked_until: None, ..u };
        match cooldown_left(u, command, now) {
            Some(left) => (free, Some(cooldown_message(command, left))),
            None => {
                let recent = fresh(u.recent, now, limits.burst_window_secs * NANOS);
                if recent.len() >= limits.burst_limit {
                    let violations = one_more(u.violations);
                    let secs = lockout_secs(limits, violations);
                    (
                        UsageView {
                            recent: Seq::empty(),
                            locked_until: Some((now + secs * NANOS) as u128),
                            violations,
                            ..free
                        },
                        Some(burst_message(limits, secs)),
                    )
                } else {
                    (
                        UsageView {
                            recent: recent.push(now),
                            last_used: if cooldown_secs(command) is Some {
                                u.last_used.insert(command, now)
                            } else {
                                u.last_used
                            },
                            ..free
                        },
                        None,
                    )
                }
            },
        }
    }
}

/// Whether housekeeping keeps a user.
pub open spec fn worth_keeping(limits: LimitsView, u: UsageView, now: u64) -> bool {
    fresh(u.recent, now, limits.burst_window_secs * NANOS).len() > 0 || locked(u, now)
}

/// What housekeeping keeps of a user.
pub open spec fn tidied(limits: LimitsView, u: UsageView, now: u64) -> UsageView {
    UsageView { recent: fresh(u.recent, now, limits.burst_window_secs * NANOS), ..u }
}

struct UserState {
    recent: Vec<u64>,
    last_used: Table<u64>,
    locked_until: Option<u128>,
    violations: u32,
}

impl View for UserState {
    type V = UsageView;

    closed spec fn view(&self) -> UsageView {
        UsageView {
            recent: self.recent@,
            last_used: self.last_used@,
            locked_until: self.locked_until,
            violations: self.violations,
        }
    }
}

/// The limits and what is known of each user.
pub struct RateLimiter {
    users: Table<UserState>,
    burst_limit: u32,
    burst_window_secs: u64,
    cooldown_secs: u64,
}

impl View for RateLimiter {
    type V = Map<Seq<char>, UsageView>;

    closed spec fn view(&self) -> Map<Seq<char>, UsageView> {
        self.users@
    }
}

impl Default for RateLimiter {
    fn default() -> (r: Self)
        ensures
            r@ == Map::<Seq<char>, UsageView>::empty(),
            r.limits() == (LimitsView {
                burst_limit: DEFAULT_BURST_LIMIT,
                burst_window_secs: DEFAULT_BURST_WINDOW_SECS,
                cooldown_secs: DEFAULT_COOLDOWN_SECS,
            }),
    {
        RateLimiter::new(DEFAULT_BURST_LIMIT, DEFAULT_BURST_WINDOW_SECS, DEFAULT_COOLDOWN_SECS)
    }
}

fn fresh_times(times: &Vec<u64>, now: u64, window: u128) -> (r: Vec<u64>)
    ensures
        r@ == fresh(times@, now, window as int),
{
    let mut out: Vec<u64> = Vec::new();
    let mut i: usize = 0;
    proof {
        assert(times@.take(0) =~= Seq::<u64>::empty());
    }
    while i < times.len()
        invariant
            i <= times.len(),
            out@ == fresh(times@.take(i as int), now, window as int),
        decreases times.len() - i,
    {
        let t: u64 = times[i];
        let passed: u64 = if t <= now {
            now - t
        } else {
            0
        };
        proof {
            assert(times@.take(i + 1).drop_last() =~= times@.take(i as int));
            assert(times@.take(i + 1).last() == t);
        }
        if (passed as u128) < window {
            out.push(t);
        }
        i = i + 1;
    }
    proof {
        assert(times@.take(i as int) =~= times@);
    }
    out
}

fn whole_secs(nanos: u128) -> (r: u128)
    ensures
        r == wait_secs(nanos as int),
{
    let secs: u128 = nanos / NANOS;
    if secs < 1 {
        1
    } else {
        secs
    }
}

impl RateLimiter {
    /// The limits.
    pub closed spec fn limits(&self) -> LimitsView {
        LimitsView {
            burst_limit: self.burst_limit,
            burst_window_secs: self.burst_window_secs,
            cooldown_secs: self.cooldown_secs,
        }
    }

    /// What is known of a user.
    pub open spec fn usage(&self, user: Seq<char>) -> UsageView {
        if self@.dom().contains(user) {
            self@[user]
        } else {
            no_usage()
        }
    }

    /// A limiter with limits of its own that knows nobody yet.
    pub fn new(burst_limit: u32, burst_window_secs: u64, cooldown_secs: u64) -> (r: Self)
        ensures
            r@ == Map::<Seq<char>, UsageView>::empty(),
            r.limits() == (LimitsView { burst_limit, burst_window_secs, cooldown_secs }),
    {
        RateLimiter { users: Table::new(), burst_limit, burst_window_secs, cooldown_secs }
    }

    /// Decides on a command of a user at time `now`, and remembers it. Other users are not
    /// affected.
    pub fn check(&mut self, user: &str, command: &str, now: u64) -> (r: RateLimitResult)
        ensures
            denial(r) == used(
                old(self).limits(),
                old(self).usage(user@),
                command@,
                now,
            ).1,
            final(self)@ == old(self)@.insert(
                user@,
                used(old(self).limits(), old(self).usage(user@), command@, now).0,
            ),
            final(self).limits() == old(self).limits(),
    {
        let ghost before = self.usage(user@);
        let ghost known = self@;
        let ghost limits = self.limits();
        let mut state = match self.users.remove(user) {
            Some(s) => s,
            None => UserState {
                recent: Vec::new(),
                last_used: Table::new(),
                locked_until: None,
                violations: 0,
            },
        };
        proof {
            assert(state@ =~= before);
        }
        let result = Self::decide(
            &mut state,
            self.burst_limit,
            self.burst_window_secs,
            self.cooldown_secs,
            command,
            now,
        );
        self.users.insert(user, state);
        proof {
            assert(self@ =~= known.insert(user@, used(limits, before, command@, now).0));
        }
        result
    }

    fn decide(
        state: &mut UserState,
        burst_limit: u32,
        burst_window_secs: u64,
        lockout: u64,
        command: &str,
        now: u64,
    ) -> (r: RateLimitResult)
        ensures
            ({
                let limits = LimitsView {
                    burst_limit,
                    burst_window_secs,
                    cooldown_secs: lockout,
                };
                &&& denial(r) == used(limits, old(state)@, command@, now).1
                &&& final(state)@ == used(limits, old(state)@, command@, now).0
            }),
    {
        let ghost limits = LimitsView { burst_limit, burst_window_secs, cooldown_secs: lockout };
        let ghost before = state@;
        if let Some(until) = state.locked_until {
            if (now as u128) < until {
                let secs: u128 = whole_secs(until - now as u128);
                return RateLimitResult::Deny(
                    text::cat3(
                        "⏳ You're rate-limited. Try again in ",
                        number::show_wide(secs).as_str(),
                        "s.",
                    ),
                );
            }
        }
        state.locked_until = None;
        let cooldown = command_cooldown(command);
        if let Some(secs) = cooldown {
            if let Some(last) = state.last_used.get(command) {
                let passed: u64 = if *last <= now {
                    now - *last
                } else {
                    0
                };
                let span: u128 = (secs as u128) * NANOS;
                if (passed as u128) < span {
                    let left: u128 = whole_secs(span - passed as u128);
                    proof {
                        assert(state@ =~= UsageView { locked_until: None, ..before });
                    }
                    return RateLimitResult::Deny(
                        text::cat5(
                            "⏳ !",
                            text::trim_start_char(command, '!'),
                            " is on cooldown. Try again in ",
                            number::show_wide(left).as_str(),
                            "s.",
                        ),
                    );
                }
            }
        }
        let window: u128 = (burst_window_secs as u128) * NANOS;
        let recent = fresh_times(&state.recent, now, window);
        if recent.len() >= burst_limit as usize {
            if state.violations < u32::MAX {
                state.violations = state.violations + 1;
            }
            let secs: u64 = if state.violations >= REPEAT_OFFENDER_THRESHOLD {
                REPEAT_OFFENDER_COOLDOWN_SECS
            } else {
                lockout
            };
            state.locked_until = Some(now as u128 + (secs as u128) * NANOS);
            state.recent = Vec::new();
            proof {
                assert(state@ =~= used(limits, before, command@, now).0);
            }
            return RateLimitResult::Deny(
                text::cat7(
                    "🛑 Slow down! You've hit the rate limit (",
                    number::show(burst_limit as u64).as_str(),
                    " commands per ",
                    number::show(burst_window_secs).as_str(),
                    "s). Try again in ",
                    number::show(secs).as_str(),
                    "s.",
                ),
            );
        }
        state.recent = recent;
        state.recent.push(now);
        if cooldown.is_some() {
            state.last_used.insert(command, now);
        }
        proof {
            assert(state@ =~= used(limits, before, command@, now).0);
        }
        RateLimitResult::Allow
    }

    /// Forgets users who neither ran a command within the window nor are locked out, and every
    /// time outside the window.
    pub fn cleanup(&mut self, now: u64)
        ensures
            final(self).limits() == old(self).limits(),
            forall|u: Seq<char>| #[trigger]
                final(self)@.dom().contains(u) <==> old(self)@.dom().contains(u) && worth_keeping(
                    old(self).limits(),
                    old(self)@[u],
                    now,
                ),
            forall|u: Seq<char>| #[trigger]
                final(self)@.dom().contains(u) ==> final(self)@[u] == tidied(
                    old(self).limits(),
                    old(self)@[u],
                    now,
                ),
    {
        let ghost start = self@;
        let ghost limits = self.limits();
        let window: u128 = (self.burst_window_secs as u128) * NANOS;
        let n: usize = self.users.len();
        let ghost rows = self.users.listed();
        let mut names: Vec<String> = Vec::new();
        let mut k: usize = 0;
        while k < n
            invariant
                k <= n,
                n == rows.len(),
                rows == self.users.listed(),
                *self == *old(self),
                names.len() == k,
                forall|j: int| 0 <= j < k ==> (#[trigger] names@[j])@ == rows[j].0,
            decreases n - k,
        {
            names.push(self.users.key_at(k).to_owned());
            k = k + 1;
        }
        proof {
            crate::table::lemma_rows_map(rows);
        }
        let mut i: usize = 0;
        while i < names.len()
            invariant
                i <= names.len(),
                names.len() == rows.len(),
                crate::table::distinct_keys(rows),
                start == crate::table::rows_map(rows),
                forall|j: int| 0 <= j < rows.len() ==> (#[trigger] names@[j])@ == rows[j].0,
                self.limits() == limits,
                window == limits.burst_window_secs * NANOS,
                forall|j: int|
                    0 <= j < rows.len() ==> #[trigger] start.dom().contains(rows[j].0),
                forall|j: int|
                    0 <= j < i ==> (self@.dom().contains((#[trigger] rows[j]).0)
                        <==> worth_keeping(limits, start[rows[j].0], now)),
                forall|j: int|
                    0 <= j < i ==> self@.dom().contains((#[trigger] rows[j]).0)
                        ==> self@[rows[j].0] == tidied(limits, start[rows[j].0], now),
                forall|j: int|
                    i <= j < rows.len() ==> self@.dom().contains((#[trigger] rows[j]).0)
                        && self@[rows[j].0] == start[rows[j].0],
                forall|u: Seq<char>| #[trigger]
                    self@.dom().contains(u) ==> start.dom().contains(u),
            decreases names.len() - i,
        {
            let name = names[i].as_str();
            let ghost held = self@;
            proof {
                assert(name@ == rows[i as int].0);
            }
            if let Some(found) = self.users.remove(name) {
                let mut state = found;
                let ghost before = state@;
                state.recent = fresh_times(&state.recent, now, window);
                let shut = match state.locked_until {
                    Some(until) => (now as u128) < until,
                    None => false,
                };
                proof {
                    assert(state@ =~= tidied(limits, before, now));
                }
                if state.recent.len() > 0 || shut {
                    self.users.insert(name, state);
                }
            }
            proof {
                assert forall|j: int| 0 <= j < rows.len() && j != i implies (#[trigger] rows[j]).0
                    != name@ by {
                    if j < i {
                        assert(rows[j].0 != rows[i as int].0);
                    } else {
                        assert(rows[i as int].0 != rows[j].0);
                    }
                }
            }
            i = i + 1;
        }
        proof {
            assert forall|u: Seq<char>| start.dom().contains(u) implies exists|j: int|
                0 <= j < rows.len() && (#[trigger] rows[j]).0 == u by {
                crate::table::lemma_rows_map(rows);
            }
        }
    }

    /// How many users are known.
    pub fn tracked_users(&self) -> (r: usize)
        ensures
            r == self@.dom().len(),
            self@.dom().finite(),
    {
        self.users.len()
    }
}

/// The times kept for a user never exceed the burst limit: a command that is let through was
/// preceded by fewer commands than the limit within the window.
pub proof fn law_burst_limit_holds(limits: LimitsView, u: UsageView, command: Seq<char>, now: u64)
    requires
        u.recent.len() <= limits.burst_limit,
    ensures
        used(limits, u, command, now).0.recent.len() <= limits.burst_limit,
        used(limits, u, command, now).1 is None ==> fresh(
            u.recent,
            now,
            limits.burst_window_secs * NANOS,
        ).len() < limits.burst_limit,
{
    lemma_fresh_shorter(u.recent, now, limits.burst_window_secs * NANOS);
}

proof fn lemma_fresh_shorter(times: Seq<u64>, now: u64, window: int)
    ensures
        fresh(times, now, window).len() <= times.len(),
    decreases times.len(),
{
    if times.len() > 0 {
        lemma_fresh_shorter(times.drop_last(), now, window);
    }
}

/// Whoever hits the limit is locked out: every command before the end of the lockout is denied,
/// and it changes nothing.
pub proof fn law_lockout_denies(
    limits: LimitsView,
    u: UsageView,
    command: Seq<char>,
    now: u64,
    later_command: Seq<char>,
    later: u64,
)
    requires
        !locked(u, now),
        cooldown_left(u, command, now) is None,
        fresh(u.recent, now, limits.burst_window_secs * NANOS).len() >= limits.burst_limit,
        now <= later,
        (later as int) < now + lockout_secs(limits, one_more(u.violations)) * NANOS,
    ensures
        used(limits, u, command, now).1 is Some,
        ({
            let after = used(limits, u, command, now).0;
            &&& used(limits, after, later_command, later).1 is Some
            &&& used(limits, after, later_command, later).0 == after
        }),
{
}

/// A command that was let through is denied again until its cooldown has passed.
pub proof fn law_command_cooldown(
    limits: LimitsView,
    u: UsageView,
    command: Seq<char>,
    now: u64,
    later: u64,
)
    requires
        used(limits, u, command, now).1 is None,
        cooldown_secs(command) is Some,
        now <= later < now + cooldown_secs(command)->0 * NANOS,
    ensures
        used(limits, used(limits, u, command, now).0, command, later).1 is Some,
{
}

/// A command is let through exactly where the user is not locked out, the command is not on
/// cooldown, and fewer commands than the limit were let through within the last seconds of the
/// window.
pub proof fn law_quiet_user_is_let_through(
    limits: LimitsView,
    u: UsageView,
    command: Seq<char>,
    now: u64,
)
    ensures
        used(limits, u, command, now).1 is None <==> {
            &&& u.locked_until is None || u.locked_until->0 <= now
            &&& cooldown_left(u, command, now) is None
            &&& u.recent.filter(
                |t: u64|
                    limits.burst_window_secs > 0 && t + limits.burst_window_secs * 1_000_000_000
                        > now,
            ).len() < limits.burst_limit
        },
{
    lemma_fresh_is_filter(
        u.recent,
        now,
        limits.burst_window_secs,
        |t: u64|
            limits.burst_window_secs > 0 && t + limits.burst_window_secs * 1_000_000_000 > now,
    );
}

proof fn lemma_fresh_is_filter(
    times: Seq<u64>,
    now: u64,
    secs: u64,
    p: spec_fn(u64) -> bool,
)
    requires
        forall|t: u64| #[trigger] p(t) <==> secs > 0 && t + secs * 1_000_000_000 > now,
    ensures
        fresh(times, now, secs * NANOS) == times.filter(p),
    decreases times.len(),
{
    reveal(Seq::filter);
    if times.len() > 0 {
        lemma_fresh_is_filter(times.drop_last(), now, secs, p);
    }
}

/// A user whose every command has left the window starts afresh: the next one is let through, as
/// if there had been none, where it is not on cooldown.
pub proof fn law_old_commands_do_not_count(
    limits: LimitsView,
    u: UsageView,
    command: Seq<char>,
    now: u64,
)
    requires
        !locked(u, now),
        cooldown_left(u, command, now) is None,
        limits.burst_limit > 0,
        forall|i: int|
            0 <= i < u.recent.len() ==> (#[trigger] u.recent[i]) + limits.burst_window_secs
                * 1_000_000_000 <= now,
    ensures
        used(limits, u, command, now).1 is None,
        used(limits, u, command, now).0.recent == seq![now],
{
    lemma_nothing_fresh(u.recent, now, limits.burst_window_secs * NANOS);
    assert(Seq::<u64>::empty().push(now) =~= seq![now]);
}

proof fn lemma_nothing_fresh(times: Seq<u64>, now: u64, window: int)
    requires
        forall|i: int| 0 <= i < times.len() ==> (#[trigger] times[i]) + window <= now,
        window >= 0,
    ensures
        fresh(times, now, window) == Seq::<u64>::empty(),
    decreases times.len(),
{
    if times.len() > 0 {
        let init = times.drop_last();
        assert(times[times.len() - 1] == times.last());
        assert forall|i: int| 0 <= i < init.len() implies (#[trigger] init[i]) + window <= now by {
            assert(init[i] == times[i]);
        }
        lemma_nothing_fresh(init, now, window);
    } else {
        assert(times =~= Seq::empty());
    }
}

/// As many commands as the limit, each within the window, are followed by a denial; one fewer is
/// not.
pub proof fn law_limit_is_reached(limits: LimitsView, u: UsageView, command: Seq<char>, now: u64)
    requires
        !locked(u, now),
        cooldown_left(u, command, now) is None,
        limits.burst_window_secs > 0,
        forall|i: int|
            0 <= i < u.recent.len() ==> (#[trigger] u.recent[i]) + limits.burst_window_secs
                * 1_000_000_000 > now,
    ensures
        used(limits, u, command, now).1 is Some <==> u.recent.len() >= limits.burst_limit,
        u.recent.len() < limits.burst_limit ==> used(limits, u, command, now).0.recent
            == u.recent.push(now),
{
    lemma_all_fresh(u.recent, now, limits.burst_window_secs * NANOS);
}

proof fn lemma_all_fresh(times: Seq<u64>, now: u64, window: int)
    requires
        forall|i: int| 0 <= i < times.len() ==> (#[trigger] times[i]) + window > now,
        window > 0,
    ensures
        fresh(times, now, window) == times,
    decreases times.len(),
{
    if times.len() > 0 {
        let init = times.drop_last();
        assert(times[times.len() - 1] == times.last());
        assert forall|i: int| 0 <= i < init.len() implies (#[trigger] init[i]) + window > now by {
            assert(init[i] == times[i]);
        }
        lemma_all_fresh(init, now, window);
        assert(times =~= init.push(times.last()));
    }
}

/// Whoever hits the limit for the first or second time is locked out for the configured seconds,
/// from the third time on for five minutes. When that has passed, they may go on at once.
pub proof fn law_lockout_ends(
    limits: LimitsView,
    u: UsageView,
    command: Seq<char>,
    now: u64,
    other: Seq<char>,
    later: u64,
)
    requires
        !locked(u, now),
        cooldown_left(u, command, now) is None,
        fresh(u.recent, now, limits.burst_window_secs * NANOS).len() >= limits.burst_limit,
        u.violations < u32::MAX,
        limits.burst_limit > 0,
        now <= later,
        cooldown_left(u, other, later) is None,
    ensures
        ({
            let after = used(limits, u, command, now).0;
            let secs = if u.violations + 1 >= 3 {
                300
            } else {
                limits.cooldown_secs as int
            };
            &&& after.violations == u.violations + 1
            &&& after.last_used == u.last_used
            &&& used(limits, after, other, later).1 is None <==> later >= now + secs
                * 1_000_000_000
        }),
{
}

/// A command waits ten seconds where it looks something up at an outside service, and three
/// seconds otherwise, from when the same user last had it let through. Other commands do not make
/// it wait.
pub proof fn law_cooldown_lasts(u: UsageView, command: Seq<char>, last: u64, now: u64)
    requires
        command.len() > 0,
        command[0] == '!',
        last <= now,
    ensures
        ({
            let known = UsageView { last_used: u.last_used.insert(command, last), ..u };
            let secs = if command == "!price"@ || command == "!weather"@ {
                10int
            } else {
                3
            };
            &&& cooldown_left(known, command, now) is None <==> now >= last + secs * 1_000_000_000
        }),
        forall|other: Seq<char>| #[trigger] cooldown_left(
            UsageView { last_used: u.last_used.insert(command, last), ..u },
            other,
            now,
        ) == cooldown_left(u, other, now) || other == command,
        !u.last_used.dom().contains(command) ==> cooldown_left(u, command, now) is None,
{
}

/// A command that was let through is remembered at its time, and one that was denied is not: it
/// neither counts toward the limit nor starts a cooldown.
pub proof fn law_only_what_ran_counts(
    limits: LimitsView,
    u: UsageView,
    command: Seq<char>,
    now: u64,
)
    ensures
        ({
            let (after, why) = used(limits, u, command, now);
            &&& why is None ==> after.recent.len() > 0 && after.recent.last() == now
                && after.violations == u.violations && after.locked_until is None
            &&& why is None && command.len() > 0 && command[0] == '!' ==> after.last_used
                == u.last_used.insert(command, now)
            &&& why is Some ==> after.last_used == u.last_used && after.recent.len()
                <= u.recent.len()
        }),
{
    reveal_strlit("!price");
    reveal_strlit("!weather");
}

/// By default five commands are let through in thirty seconds, and who sends more waits for thirty.
pub proof fn law_default_limits()
    ensures
        DEFAULT_BURST_LIMIT == 5,
        DEFAULT_BURST_WINDOW_SECS == 30,
        DEFAULT_COOLDOWN_SECS == 30,
{
}

/// Housekeeping changes nothing of what is decided: a user it keeps is let through or denied as
/// before, and one it forgets would have been let through but for a command on cooldown.
pub proof fn law_housekeeping_decides_nothing(
    limits: LimitsView,
    u: UsageView,
    command: Seq<char>,
    now: u64,
    later: u64,
)
    requires
        now <= later,
    ensures
        used(limits, tidied(limits, u, now), command, later) == used(limits, u, command, later)
            || locked(u, later) || cooldown_left(u, command, later) is Some,
        used(limits, tidied(limits, u, now), command, later).1 == used(
            limits,
            u,
            command,
            later,
        ).1,
        !worth_keeping(limits, u, now) && limits.burst_limit > 0 && cooldown_left(
            u,
            command,
            now,
        ) is None ==> used(limits, u, command, now).1 is None,
{
    lemma_fresh_twice(u.recent, now, later, limits.burst_window_secs * NANOS);
}

proof fn lemma_fresh_twice(times: Seq<u64>, now: u64, later: u64, window: int)
    requires
        now <= later,
    ensures
        fresh(fresh(times, now, window), later, window) == fresh(times, later, window),
    decreases times.len(),
{
    if times.len() > 0 {
        let kept = fresh(times.drop_last(), now, window);
        lemma_fresh_twice(times.drop_last(), now, later, window);
        assert(kept.push(times.last()).drop_last() =~= kept);
    }
}

} // verus!
