use concord_bots::community::{
    cumulative_xp_for_level, level_for_xp, xp_for_level, xp_in_current_level, Database, StoreError,
};

const NOW: i64 = 1_700_000_000;

fn test_db() -> Database {
    Database::new()
}

#[test]
fn test_xp_for_level() {
    // Formula: 5*N^2 + 50*N + 100 (XP needed to advance from level N-1 to N)
    assert_eq!(xp_for_level(1), 155);   // 5 + 50 + 100
    assert_eq!(xp_for_level(5), 475);   // 125 + 250 + 100
    assert_eq!(xp_for_level(10), 1100); // 500 + 500 + 100
    assert_eq!(xp_for_level(20), 3100); // 2000 + 1000 + 100
}

#[test]
fn test_level_for_xp() {
    // cumulative(1) = 155, cumulative(2) = 375, cumulative(3) = 670
    assert_eq!(level_for_xp(0), 0);
    assert_eq!(level_for_xp(154), 0);
    assert_eq!(level_for_xp(155), 1);
    assert_eq!(level_for_xp(374), 1);
    assert_eq!(level_for_xp(375), 2);
    assert_eq!(level_for_xp(669), 2);
    assert_eq!(level_for_xp(670), 3);
}

#[test]
fn test_cumulative_xp() {
    assert_eq!(cumulative_xp_for_level(0), 0);
    assert_eq!(cumulative_xp_for_level(1), 155);
    assert_eq!(cumulative_xp_for_level(2), 375); // 155 + 220
    assert_eq!(cumulative_xp_for_level(3), 670); // 375 + 295
}

#[test]
fn test_award_xp() {
    let mut db = test_db();
    let (level, leveled_up) = db.award_xp("npub1test", 100, "ch1", NOW).unwrap();
    assert_eq!(level, 0);
    assert!(!leveled_up);

    // Award enough to reach level 1
    let (level, leveled_up) = db.award_xp("npub1test", 100, "ch1", NOW).unwrap();
    assert!(level >= 1);
    assert!(leveled_up);
}

#[test]
fn test_xp_cooldown() {
    let mut db = test_db();
    db.award_xp("npub1test", 10, "ch1", NOW).unwrap();
    assert!(db.is_on_xp_cooldown("npub1test", 60, NOW));
    assert!(!db.is_on_xp_cooldown("npub1other", 60, NOW));
}

#[test]
fn test_leaderboard() {
    let mut db = test_db();
    db.award_xp("npub1a", 100, "ch1", NOW).unwrap();
    db.award_xp("npub1b", 200, "ch1", NOW).unwrap();
    db.award_xp("npub1c", 50, "ch1", NOW).unwrap();

    let lb = db.get_leaderboard(3);
    assert_eq!(lb.len(), 3);
    assert_eq!(lb[0].0, "npub1b"); // highest XP
    assert_eq!(lb[1].0, "npub1a");
    assert_eq!(lb[2].0, "npub1c");
}

#[test]
fn test_giveaway_flow() {
    let mut db = test_db();
    db.add_giveaway("g1", "ch1", "50 sats", 50, 0, 1000).unwrap();

    let active = db.get_active_giveaways();
    assert_eq!(active.len(), 1);

    db.add_entry("g1", "npub1a", NOW);
    db.add_entry("g1", "npub1b", NOW);

    let entries = db.get_entries("g1");
    assert_eq!(entries.len(), 2);

    let winner = db.pick_winner("g1");
    assert!(winner.is_some());

    let g = db.get_giveaway("g1").unwrap();
    assert!(!g.active);
    assert!(g.winner_npub.is_some());
}

#[test]
fn test_reputation() {
    let mut db = test_db();
    // First rep — should succeed
    assert!(db.give_rep("npub1a", "npub1b", NOW).unwrap());
    // Second rep to same target — should fail (cooldown)
    assert!(!db.give_rep("npub1a", "npub1b", NOW).unwrap());
    // Rep to different target — should succeed
    assert!(db.give_rep("npub1a", "npub1c", NOW).unwrap());

    let stats = db.get_user("npub1b");
    assert_eq!(stats.rep, 1);
}

#[test]
fn test_increment_messages() {
    let mut db = test_db();
    db.increment_messages("npub1a", NOW).unwrap();
    db.increment_messages("npub1a", NOW).unwrap();
    let stats = db.get_user("npub1a");
    assert_eq!(stats.messages_sent, 2);
}

#[test]
fn test_rank() {
    let mut db = test_db();
    db.award_xp("npub1a", 100, "ch1", NOW).unwrap();
    db.award_xp("npub1b", 300, "ch1", NOW).unwrap();
    db.award_xp("npub1c", 200, "ch1", NOW).unwrap();

    assert_eq!(db.get_rank("npub1b"), Some(1));
    assert_eq!(db.get_rank("npub1c"), Some(2));
    assert_eq!(db.get_rank("npub1a"), Some(3));
}

#[test]
fn test_get_user_default() {
    let db = test_db();
    let stats = db.get_user("nonexistent");
    assert_eq!(stats.xp, 0);
    assert_eq!(stats.level, 0);
}

#[test]
fn test_channel_state_default_disabled() {
    let db = test_db();
    // No row = disabled (opt-in default)
    assert!(!db.is_channel_enabled("ch1"));
}

#[test]
fn test_channel_disable_enable() {
    let mut db = test_db();
    // Disable
    db.set_channel_enabled("ch1", false, "npub1owner", NOW);
    assert!(!db.is_channel_enabled("ch1"));
    // Re-enable
    db.set_channel_enabled("ch1", true, "npub1owner", NOW);
    assert!(db.is_channel_enabled("ch1"));
}

#[test]
fn test_disable_channel_idempotent() {
    let mut db = test_db();
    db.disable_channel("ch1", NOW);
    assert!(!db.is_channel_enabled("ch1"));
    // Calling again shouldn't flip it back to enabled (INSERT OR IGNORE)
    db.disable_channel("ch1", NOW);
    assert!(!db.is_channel_enabled("ch1"));
}

#[test]
fn test_enable_after_disable_channel() {
    let mut db = test_db();
    db.disable_channel("ch1", NOW);
    assert!(!db.is_channel_enabled("ch1"));
    // Owner explicitly enables
    db.set_channel_enabled("ch1", true, "npub1owner", NOW);
    assert!(db.is_channel_enabled("ch1"));
}

#[test]
fn top_level_is_capped() {
    assert_eq!(level_for_xp(i64::MAX), 1001);
    assert_eq!(level_for_xp(-5), 0);
    assert_eq!(level_for_xp(cumulative_xp_for_level(1000)), 1000);
    assert_eq!(xp_in_current_level(400, 2), 25);
    assert_eq!(cumulative_xp_for_level(-3), 0);
}

#[test]
fn cooldowns_end() {
    let mut db = test_db();
    db.award_xp("npub1a", 1, "c", NOW).unwrap();
    assert!(db.is_on_xp_cooldown("npub1a", 60, NOW + 59));
    assert!(!db.is_on_xp_cooldown("npub1a", 60, NOW + 60));
    assert_eq!(db.give_rep("npub1a", "npub1b", NOW), Ok(true));
    assert_eq!(db.give_rep("npub1a", "npub1b", NOW + 86399), Ok(false));
    assert!(db.check_rep_cooldown("npub1a", "npub1b", NOW + 86399));
    assert_eq!(db.give_rep("npub1a", "npub1b", NOW + 86400), Ok(true));
    assert!(!db.check_rep_cooldown("npub1b", "npub1a", NOW));
    assert_eq!(db.get_user("npub1b").rep, 2);
}

#[test]
fn sums_that_do_not_fit_are_refused() {
    let mut db = test_db();
    db.award_xp("npub1a", i64::MAX, "c", NOW).unwrap();
    assert_eq!(db.award_xp("npub1a", 1, "c", NOW), Err(StoreError::Overflow));
    assert_eq!(db.get_user("npub1a").xp, i64::MAX);
    assert_eq!(db.get_user("npub1a").level, 1001);
}

#[test]
fn sats_add_up() {
    let mut db = test_db();
    db.add_sats_tipped("npub1a", 21, NOW).unwrap();
    db.add_sats_tipped("npub1a", 21, NOW).unwrap();
    db.add_sats_zapped("npub1a", 5, NOW).unwrap();
    let stats = db.get_user("npub1a");
    assert_eq!((stats.sats_tipped, stats.sats_zapped, stats.first_seen), (42, 5, NOW));
    assert_eq!(stats.npub, "npub1a");
}

#[test]
fn giveaways_by_channel() {
    let mut db = test_db();
    db.add_giveaway("g1", "ch1", "a", 0, 0, 1).unwrap();
    db.add_giveaway("g2", "ch2", "b", 0, 0, 1).unwrap();
    db.add_giveaway("g3", "ch1", "c", 0, 0, 1).unwrap();
    assert_eq!(db.add_giveaway("g1", "ch9", "x", 0, 0, 1), Err(StoreError::Duplicate));
    let ids: Vec<String> =
        db.get_active_giveaways_in_channel("ch1").iter().map(|g| g.id.clone()).collect();
    assert_eq!(ids, vec!["g1", "g3"]);
    assert!(db.end_giveaway("g1").unwrap().active);
    assert!(db.end_giveaway("nope").is_none());
    assert_eq!(db.get_active_giveaways().len(), 2);
    assert!(db.pick_winner("g2").is_none());
    assert!(db.get_giveaway("g2").unwrap().active);
    db.add_entry("g2", "npub1a", NOW);
    assert!(db.pick_entry("g2", 1).is_none());
    assert_eq!(db.pick_entry("g2", 0), Some("npub1a".to_string()));
    assert_eq!(db.get_giveaway("g2").unwrap().winner_npub, Some("npub1a".to_string()));
}

#[test]
fn leaderboard_limits_and_unknown_rank() {
    let mut db = test_db();
    for i in 0..5 {
        db.award_xp(&format!("npub1{}", i), 10, "c", NOW).unwrap();
    }
    assert_eq!(db.get_leaderboard(2).len(), 2);
    assert_eq!(db.get_leaderboard(-1).len(), 5);
    assert_eq!(db.get_leaderboard(9).len(), 5);
    assert_eq!(db.get_leaderboard(0).len(), 0);
    assert_eq!(db.get_leaderboard(2)[0].0, "npub10");
    assert_eq!(db.get_rank("stranger"), Some(1));
}

#[test]
fn snapshot_restores_everything() {
    let mut db = test_db();
    db.award_xp("npub1a", 200, "c", NOW).unwrap();
    db.add_giveaway("g1", "ch1", "a", 0, 0, 1).unwrap();
    db.add_entry("g1", "npub1a", NOW);
    db.give_rep("npub1a", "npub1b", NOW).unwrap();
    db.set_channel_enabled("ch1", true, "npub1o", NOW);
    let again = Database::restore(db.snapshot());
    assert_eq!(again.get_user("npub1a").xp, 200);
    assert_eq!(again.get_user("npub1a").level, 1);
    assert_eq!(again.get_entries("g1"), vec!["npub1a"]);
    assert!(again.check_rep_cooldown("npub1a", "npub1b", NOW));
    assert!(again.is_channel_enabled("ch1"));
    assert_eq!(again.get_active_giveaways().len(), 1);
}
