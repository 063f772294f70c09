use concord_bots::auth::{bot_has_capability, AuthLevel, AuthManager, AuthState};

#[test]
fn test_owner_is_owner() {
    let auth = AuthManager::new("npub1owner", &vec![], false, None);
    assert_eq!(auth.check("npub1owner", None), AuthLevel::Owner);
    assert!(auth.is_owner("npub1owner"));
}

#[test]
fn test_authorized_user() {
    let auth =
        AuthManager::new("npub1owner", &vec!["npub1friend".to_string()], false, None);
    assert_eq!(auth.check("npub1friend", None), AuthLevel::Authorized);
    assert!(auth.is_authorized("npub1friend", None));
}

#[test]
fn test_unknown_is_public() {
    let auth = AuthManager::new("npub1owner", &vec![], false, None);
    assert_eq!(auth.check("npub1random", None), AuthLevel::Public);
}

#[test]
fn test_add_and_remove() {
    let mut auth = AuthManager::new("npub1owner", &vec![], false, None);

    // Per-community add
    assert!(auth.add("npub1new", Some("community_a")));
    assert_eq!(auth.check("npub1new", Some("community_a")), AuthLevel::Authorized);
    // Not authorized in other communities
    assert_eq!(auth.check("npub1new", Some("community_b")), AuthLevel::Public);
    assert_eq!(auth.check("npub1new", None), AuthLevel::Public);

    // Duplicate add is a no-op.
    assert!(!auth.add("npub1new", Some("community_a")));
    // Can't add owner.
    assert!(!auth.add("npub1owner", Some("community_a")));

    // Global add works everywhere
    assert!(auth.add("npub1global", None));
    assert_eq!(auth.check("npub1global", Some("community_a")), AuthLevel::Authorized);
    assert_eq!(auth.check("npub1global", None), AuthLevel::Authorized);

    // Remove from specific community
    assert!(auth.remove("npub1new", Some("community_a")));
    assert_eq!(auth.check("npub1new", Some("community_a")), AuthLevel::Public);

    // Global remove
    assert!(auth.remove("npub1global", None));
    assert_eq!(auth.check("npub1global", Some("community_a")), AuthLevel::Public);
}

#[test]
fn test_has_permission() {
    let mut auth = AuthManager::new("npub1owner", &vec!["npub1friend".to_string()], false, None);

    // Owner can do everything (any context).
    assert!(auth.has_permission("npub1owner", Some("comm_a"), AuthLevel::Owner));
    assert!(auth.has_permission("npub1owner", None, AuthLevel::Owner));

    // Global authorized (from seed list) works in any context.
    assert!(auth.has_permission("npub1friend", Some("comm_a"), AuthLevel::Authorized));
    assert!(auth.has_permission("npub1friend", None, AuthLevel::Authorized));
    assert!(!auth.has_permission("npub1friend", Some("comm_a"), AuthLevel::Owner));

    // Community-scoped authorized only works in that community.
    auth.add("npub1local", Some("comm_a"));
    assert!(auth.has_permission("npub1local", Some("comm_a"), AuthLevel::Authorized));
    assert!(!auth.has_permission("npub1local", Some("comm_b"), AuthLevel::Authorized));
    assert!(!auth.has_permission("npub1local", None, AuthLevel::Authorized));

    // Public can only do Public.
    assert!(auth.has_permission("npub1random", Some("comm_a"), AuthLevel::Public));
    assert!(!auth.has_permission("npub1random", Some("comm_a"), AuthLevel::Authorized));
}

#[test]
fn test_list_sorted() {
    let mut auth = AuthManager::new(
        "npub1owner",
        &vec!["npub1charlie".to_string(), "npub1alpha".to_string()],
        false,
        None,
    );

    // Seed list goes to global
    let (global, community) = auth.list(Some("comm_a"));
    assert_eq!(global, vec!["npub1alpha", "npub1charlie"]);
    assert!(community.is_empty());

    // Add a community-scoped user
    auth.add("npub1bob", Some("comm_a"));
    let (global, community) = auth.list(Some("comm_a"));
    assert_eq!(global, vec!["npub1alpha", "npub1charlie"]);
    assert_eq!(community, vec!["npub1bob"]);
}

#[test]
fn test_persist_roundtrip() {
    let saved = {
        let mut auth = AuthManager::new("npub1owner", &vec![], true, None);
        auth.add("npub1persist1", None); // global
        auth.add("npub1persist2", None);
        auth.add("npub1local", Some("comm_a"));
        auth.saved_state()
    };
    let state = saved.unwrap();
    assert!(state.authorized.is_empty());

    // Reload — should have persisted users.
    let auth = AuthManager::new("npub1owner", &vec![], true, Some(&state));
    assert!(auth.is_authorized("npub1persist1", None));
    assert!(auth.is_authorized("npub1persist2", None));
    assert!(auth.is_authorized("npub1local", Some("comm_a")));
    assert!(!auth.is_authorized("npub1local", None));
    assert_eq!(auth.authorized_count(), 3);

    // Without persistence a saved state is not read.
    let auth = AuthManager::new("npub1owner", &vec![], false, Some(&state));
    assert_eq!(auth.authorized_count(), 0);
}

#[test]
fn legacy_list_counts_as_global() {
    let state = AuthState {
        authorized: vec!["npub1old".to_string()],
        authorized_global: vec!["npub1new".to_string()],
        authorized_by_community: vec![("c".to_string(), vec!["npub1c".to_string()])],
    };
    let auth = AuthManager::new("npub1owner", &vec!["npub1seed".to_string()], true, Some(&state));
    assert_eq!(auth.list(Some("c")).0, vec!["npub1new", "npub1old", "npub1seed"]);
    assert_eq!(auth.list(Some("c")).1, vec!["npub1c"]);
    assert_eq!(auth.owner(), "npub1owner");
    assert_eq!(auth.owner_npub(), Some("npub1owner".to_string()));
    assert_eq!(AuthManager::new("", &vec![], false, None).owner_npub(), None);
}

#[test]
fn capability_is_looked_up_in_text() {
    assert!(bot_has_capability(Some("[\"kick\",\"ban\"]"), "ban"));
    assert!(!bot_has_capability(Some("[\"kick\"]"), "ban"));
    assert!(!bot_has_capability(None, "ban"));
}

#[test]
fn test_persist_disabled() {
    let mut auth = AuthManager::new("npub1owner", &vec![], false, None);
    auth.add("npub1nopersist", None);
    assert!(auth.saved_state().is_none(), "nothing is saved when persist=false");
}

#[test]
fn test_auth_level_ordering() {
    assert!(AuthLevel::Owner > AuthLevel::Authorized);
    assert!(AuthLevel::Authorized > AuthLevel::Public);
    assert!(AuthLevel::Owner > AuthLevel::Public);
}

#[test]
fn test_display() {
    assert_eq!(AuthLevel::Public.to_text(), "public");
    assert_eq!(AuthLevel::Authorized.to_text(), "authorized");
    assert_eq!(AuthLevel::Owner.to_text(), "owner");
}

#[test]
fn counts_follow_every_change() {
    let mut auth = AuthManager::new("npub1owner", &vec![], false, None);
    assert_eq!(auth.authorized_count(), 0);
    for (i, place) in [None, Some("comm_a"), Some("comm_b")].into_iter().enumerate() {
        assert!(auth.add("npub1a", place));
        assert_eq!(auth.authorized_count(), i + 1);
        assert!(!auth.add("npub1a", place));
        assert_eq!(auth.authorized_count(), i + 1);
    }
    assert!(auth.remove("npub1a", Some("comm_a")));
    assert!(!auth.remove("npub1a", Some("comm_a")));
    assert_eq!(auth.authorized_count(), 2);
    assert!(auth.is_authorized("npub1a", None));
    assert_eq!(auth.list(Some("comm_b")), (vec!["npub1a".to_string()], vec!["npub1a".to_string()]));
    assert!(auth.list(Some("comm_a")).1.is_empty());
}
