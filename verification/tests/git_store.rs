use concord_bots::git_monitor::format::CommitInfo;
use concord_bots::git_monitor::poll::commits_arrived;
use concord_bots::git_monitor::store::{RepoHost, SubscriptionStore};
use concord_bots::handlers::git_cmds::{git_command, git_poll_command};


fn test_store() -> SubscriptionStore {
    SubscriptionStore::new()
}

#[test]
fn test_add_and_list() {
    let mut store = test_store();
    store
        .add("ch1", RepoHost::GitHub, "soapbox-pub", "agora", "npub1abc", 100)
        .unwrap();

    let subs = store.list_for_channel("ch1");
    assert_eq!(subs.len(), 1);
    assert_eq!(subs[0].owner, "soapbox-pub");
    assert_eq!(subs[0].repo, "agora");
    assert_eq!(subs[0].full_slug, "soapbox-pub/agora");
    assert_eq!(subs[0].host, RepoHost::GitHub);
    assert!(subs[0].last_commit_sha.is_none());
}

#[test]
fn test_dedupe() {
    let mut store = test_store();
    store
        .add("ch1", RepoHost::GitHub, "owner", "repo", "npub1a", 100)
        .unwrap();

    // Same channel + repo → error
    let result = store.add("ch1", RepoHost::GitHub, "owner", "repo", "npub1b", 100);
    assert!(result.is_err());

    // Different channel → OK
    store
        .add("ch2", RepoHost::GitHub, "owner", "repo", "npub1c", 100)
        .unwrap();

    let all = store.list_all();
    assert_eq!(all.len(), 2);
}

#[test]
fn test_remove() {
    let mut store = test_store();
    store
        .add("ch1", RepoHost::GitHub, "owner", "repo", "npub1a", 100)
        .unwrap();

    let removed = store
        .remove("ch1", RepoHost::GitHub, "owner", "repo");
    assert!(removed);

    let subs = store.list_for_channel("ch1");
    assert_eq!(subs.len(), 0);

    // Remove non-existent → false
    let removed_again = store
        .remove("ch1", RepoHost::GitHub, "owner", "repo");
    assert!(!removed_again);
}

#[test]
fn test_remove_by_id() {
    let mut store = test_store();
    store
        .add("ch1", RepoHost::GitHub, "owner", "repo", "npub1a", 100)
        .unwrap();

    let subs = store.list_for_channel("ch1");
    let id = subs[0].id;

    let removed = store.remove_by_id(id);
    assert!(removed);

    let subs = store.list_for_channel("ch1");
    assert_eq!(subs.len(), 0);
}

#[test]
fn test_count() {
    let mut store = test_store();
    store.add("ch1", RepoHost::GitHub, "a", "b", "npub1", 100).unwrap();
    store.add("ch1", RepoHost::GitLab, "c", "d", "npub1", 100).unwrap();
    store.add("ch2", RepoHost::GitHub, "e", "f", "npub1", 100).unwrap();

    assert_eq!(store.count_for_channel("ch1"), 2);
    assert_eq!(store.count_for_channel("ch2"), 1);
    assert_eq!(store.count_for_channel("ch3"), 0);
}

#[test]
fn test_exists() {
    let mut store = test_store();
    store
        .add("ch1", RepoHost::GitHub, "owner", "repo", "npub1", 100)
        .unwrap();

    assert!(store
        .is_subscribed("ch1", RepoHost::GitHub, "owner", "repo"));
    assert!(!store
        .is_subscribed("ch1", RepoHost::GitLab, "owner", "repo"));
    assert!(!store
        .is_subscribed("ch2", RepoHost::GitHub, "owner", "repo"));
}

#[test]
fn test_update_sha_and_tag() {
    let mut store = test_store();
    store
        .add("ch1", RepoHost::GitHub, "owner", "repo", "npub1", 100)
        .unwrap();

    let subs = store.list_for_channel("ch1");
    let id = subs[0].id;

    store.set_last_commit_sha(id, "abc123", 200);
    store.set_last_release_tag(id, "v1.0", 300);

    let subs = store.list_for_channel("ch1");
    assert_eq!(subs[0].last_commit_sha.as_deref(), Some("abc123"));
    assert_eq!(subs[0].last_release_tag.as_deref(), Some("v1.0"));
    assert!(subs[0].last_poll_at.is_some());
}

#[test]
fn test_repo_host_roundtrip() {
    assert_eq!(RepoHost::GitHub.as_str(), "github");
    assert_eq!(RepoHost::GitLab.as_str(), "gitlab");
    assert_eq!(RepoHost::from_str("github"), Some(RepoHost::GitHub));
    assert_eq!(RepoHost::from_str("gitlab"), Some(RepoHost::GitLab));
    assert_eq!(RepoHost::from_str("unknown"), None);
}

#[test]
fn host_names_in_any_case() {
    for host in [RepoHost::GitHub, RepoHost::GitLab] {
        assert_eq!(RepoHost::from_str(host.as_str()), Some(host));
        assert_eq!(RepoHost::from_str(&host.as_str().to_uppercase()), Some(host));
    }
    assert_eq!(RepoHost::from_str("GitLab"), Some(RepoHost::GitLab));
    assert_eq!(RepoHost::from_str("GitHüb"), RepoHost::from_str("githüb"));
    assert_eq!(RepoHost::from_str(" github"), None);
}

#[test]
fn poll_keeps_to_the_channel() {
    let mut store = test_store();
    store.add("ch1", RepoHost::GitHub, "a", "one", "npub1a", 300).unwrap();
    store.add("ch2", RepoHost::GitHub, "a", "two", "npub1a", 200).unwrap();
    store.add("ch1", RepoHost::GitLab, "b", "three", "npub1a", 100).unwrap();
    let (said, subs) = git_poll_command(&store, "ch1");
    assert_eq!(said, "🔄 Force-polling 2 subscriptions…");
    let repos: Vec<&str> = subs.iter().map(|s| s.repo.as_str()).collect();
    assert_eq!(repos, vec!["one", "three"]);
    let (said, subs) = git_poll_command(&store, "ch3");
    assert_eq!(said, "📦 No subscriptions in this channel to poll.");
    assert!(subs.is_empty());
    let (_, subs) = git_command(&mut store, "ch2", "npub1a", "poll", 5, 400);
    assert_eq!(subs.len(), 1);
    assert_eq!(subs[0].repo, "two");
    let (_, subs) = git_command(&mut store, "ch2", "npub1a", "list", 5, 400);
    assert!(subs.is_empty());
}

#[test]
fn commits_of_any_author_are_announced() {
    let mut store = test_store();
    store.add("ch1", RepoHost::GitHub, "a", "one", "npub1a", 300).unwrap();
    let commit = |sha: &str| CommitInfo {
        sha: sha.to_string(),
        message: "m".to_string(),
        author: "Jo Ünal".to_string(),
        authored_at: None,
    };
    let sub = store.list_all().remove(0);
    assert!(commits_arrived(&mut store, &sub, &vec![commit("old")], true, 400).is_none());
    let sub = store.list_all().remove(0);
    let said =
        commits_arrived(&mut store, &sub, &vec![commit("new"), commit("old")], true, 500).unwrap();
    assert!(said.contains("Jo Ü."));
}
