use concord_bots::rate_limiter::{command_cooldown, RateLimitResult, RateLimiter};

const SEC: u64 = 1_000_000_000;

fn reason(r: RateLimitResult) -> Option<String> {
    match r {
        RateLimitResult::Allow => None,
        RateLimitResult::Deny(why) => Some(why),
    }
}

#[test]
fn test_allow_under_burst() {
    let now: u64 = 1_000;
    let mut rl = RateLimiter::new(5, 30, 30);
    // Use unique command names so per-command cooldown doesn't trigger.
    for i in 0..4 {
        let cmd = format!("!test{}", i);
        match rl.check("alice", &cmd, now) {
            RateLimitResult::Allow => {}
            RateLimitResult::Deny(_) => panic!("Should be allowed"),
        }
    }
}

#[test]
fn test_deny_over_burst() {
    let now: u64 = 1_000;
    let mut rl = RateLimiter::new(3, 30, 30);
    for i in 0..3 {
        let cmd = format!("!test{}", i);
        assert!(matches!(
            rl.check("bob", &cmd, now),
            RateLimitResult::Allow
        ));
    }
    // 4th command in 30s window → burst limit hit
    match rl.check("bob", "!over", now) {
        RateLimitResult::Deny(msg) => assert!(msg.contains("rate limit")),
        RateLimitResult::Allow => panic!("Should be denied"),
    }
}

#[test]
fn test_per_command_cooldown() {
    let now: u64 = 1_000;
    let mut rl = RateLimiter::new(100, 30, 30); // High burst
    assert!(matches!(
        rl.check("carol", "!price", now),
        RateLimitResult::Allow
    ));
    match rl.check("carol", "!price", now) {
        RateLimitResult::Deny(msg) => assert!(msg.contains("cooldown")),
        RateLimitResult::Allow => panic!("Should be on cooldown"),
    }
}

#[test]
fn test_different_users_independent() {
    let now: u64 = 1_000;
    let mut rl = RateLimiter::new(2, 30, 30);
    assert!(matches!(rl.check("dave", "!a", now), RateLimitResult::Allow));
    assert!(matches!(rl.check("dave", "!b", now), RateLimitResult::Allow));
    assert!(matches!(rl.check("dave", "!c", now), RateLimitResult::Deny(_)));
    // Eve is independent.
    assert!(matches!(rl.check("eve", "!a", now), RateLimitResult::Allow));
}

#[test]
fn test_repeat_offender_escalates() {
    let mut now: u64 = 1_000;
    let mut rl = RateLimiter::new(1, 60, 1);
    // First burst filled + violation
    let _ = rl.check("frank", "!a", now);
    let _ = rl.check("frank", "!b", now); // denied (burst)

    now += 1_100_000_000;
    let _ = rl.check("frank", "!c", now);
    let _ = rl.check("frank", "!d", now); // denied (burst, violation 2)

    now += 1_100_000_000;
    let _ = rl.check("frank", "!e", now);
    let r = rl.check("frank", "!f", now); // denied (burst, violation 3 → 5 min)
    match r {
        RateLimitResult::Deny(msg) => {
            assert!(msg.contains("Slow down"));
        }
        RateLimitResult::Allow => panic!("Should be denied"),
    }
}

#[test]
fn messages_are_exact() {
    let mut rl = RateLimiter::new(1, 60, 7);
    assert_eq!(reason(rl.check("a", "!price", 0)), None);
    assert_eq!(
        reason(rl.check("a", "!price", 4 * SEC)),
        Some("⏳ !price is on cooldown. Try again in 6s.".to_string())
    );
    assert_eq!(
        reason(rl.check("a", "!x", 4 * SEC)),
        Some("🛑 Slow down! You've hit the rate limit (1 commands per 60s). Try again in 7s.".to_string())
    );
    assert_eq!(
        reason(rl.check("a", "!y", 5 * SEC + 1)),
        Some("⏳ You're rate-limited. Try again in 5s.".to_string())
    );
    assert_eq!(
        reason(rl.check("a", "!y", 11 * SEC - 1)),
        Some("⏳ You're rate-limited. Try again in 1s.".to_string())
    );
    assert_eq!(reason(rl.check("a", "!y", 11 * SEC)), None);
}

#[test]
fn third_violation_locks_for_five_minutes() {
    let mut rl = RateLimiter::new(0, 60, 1);
    for i in 0..2u64 {
        let why = reason(rl.check("a", "!x", i * 2 * SEC)).unwrap();
        assert!(why.ends_with("Try again in 1s."));
    }
    let why = reason(rl.check("a", "!x", 4 * SEC)).unwrap();
    assert!(why.ends_with("Try again in 300s."));
    assert!(reason(rl.check("a", "!x", 303 * SEC)).is_some());
}

#[test]
fn cooldowns_by_command() {
    assert_eq!(command_cooldown("!price"), Some(10));
    assert_eq!(command_cooldown("!weather"), Some(10));
    assert_eq!(command_cooldown("!help"), Some(3));
    assert_eq!(command_cooldown("hello"), None);
}

#[test]
fn cleanup_forgets_idle_users() {
    let mut rl = RateLimiter::default();
    rl.check("a", "!x", 0);
    rl.check("b", "!x", 20 * SEC);
    assert_eq!(rl.tracked_users(), 2);
    rl.cleanup(30 * SEC);
    assert_eq!(rl.tracked_users(), 1);
    rl.cleanup(50 * SEC);
    assert_eq!(rl.tracked_users(), 0);
}
