use concord_bots::git_monitor::format::{
    announce_release, format_commits, format_release, short_author, short_sha,
    time_ago, CommitInfo, ReleaseInfo,
};
use concord_bots::git_monitor::store::{RepoHost, Subscription};

const NOW: i64 = 1_700_000_600;

fn mock_sub(host: RepoHost) -> Subscription {
    Subscription {
        id: 1,
        channel_id: "ch1".to_string(),
        host,
        owner: "soapbox-pub".to_string(),
        repo: "agora".to_string(),
        full_slug: "soapbox-pub/agora".to_string(),
        added_by: "npub1test".to_string(),
        added_at: 0,
        last_commit_sha: None,
        last_release_tag: None,
        last_poll_at: None,
    }
}

fn mock_commit(sha: &str, msg: &str, author: &str) -> CommitInfo {
    CommitInfo {
        sha: sha.to_string(),
        message: msg.to_string(),
        author: author.to_string(),
        authored_at: Some(1700000000),
    }
}

#[test]
fn test_single_commit() {
    let sub = mock_sub(RepoHost::GitHub);
    let commit = mock_commit("abc1234567", "Fix login redirect loop", "Sam Thomson");
    let result = format_commits(&sub, &vec![commit], NOW);
    assert!(result.contains("soapbox-pub/agora"));
    assert!(result.contains("abc1234"));
    assert!(result.contains("Fix login redirect loop"));
    assert!(result.contains("Sam T."));
    assert!(result.contains("github.com"));
}

#[test]
fn test_multi_commit() {
    let sub = mock_sub(RepoHost::GitHub);
    let commits = vec![
        mock_commit("abc1234", "Fix login", "Sam Thomson"),
        mock_commit("def5678", "Add dark mode", "MK Dev"),
        mock_commit("9abcdef", "Bump deps", "Sam Thomson"),
    ];
    let result = format_commits(&sub, &commits, NOW);
    assert!(result.contains("3 new commits"));
    assert!(result.contains("abc1234"));
    assert!(result.contains("def5678"));
    assert!(result.contains("9abcdef"));
    assert!(result.contains("/commits/main"));
}

#[test]
fn test_many_commits_summary() {
    let sub = mock_sub(RepoHost::GitLab);
    let commits: Vec<CommitInfo> = (0..14)
        .map(|i| mock_commit(&format!("sha{:07x}", i), &format!("Commit {}", i), "Dev"))
        .collect();
    let result = format_commits(&sub, &commits, NOW);
    assert!(result.contains("14 new commits"));
    assert!(result.contains("Latest:"));
    assert!(result.contains("gitlab.com"));
    assert!(result.contains("/commits/main"));
}

#[test]
fn test_empty_commits() {
    let sub = mock_sub(RepoHost::GitHub);
    let result = format_commits(&sub, &vec![], NOW);
    assert!(result.is_empty());
}

#[test]
fn test_release_format() {
    let sub = mock_sub(RepoHost::GitHub);
    let release = ReleaseInfo {
        tag: "v2.4.0".to_string(),
        name: Some("Venezuela translation fixes".to_string()),
        body: Some("Fix missing translations\nDark mode improvements".to_string()),
        html_url: "https://github.com/soapbox-pub/agora/releases/tag/v2.4.0".to_string(),
    };
    let result = format_release(&sub, &release);
    assert!(result.contains("v2.4.0"));
    assert!(result.contains("Venezuela translation fixes"));
    assert!(result.contains("releases/tag/v2.4.0"));
}

#[test]
fn test_release_truncation() {
    let sub = mock_sub(RepoHost::GitHub);
    let long_body = "A".repeat(300);
    let release = ReleaseInfo {
        tag: "v1.0".to_string(),
        name: None,
        body: Some(long_body),
        html_url: String::new(),
    };
    let result = format_release(&sub, &release);
    assert!(result.contains("…"));
    assert!(result.contains("releases/tag/v1.0"));
}

#[test]
fn test_short_sha() {
    assert_eq!(short_sha("abc1234567890"), "abc1234");
    assert_eq!(short_sha("short"), "short");
}

#[test]
fn test_short_author() {
    assert_eq!(short_author("Sam Thomson"), "Sam T.");
    assert_eq!(short_author("MK"), "MK");
    assert_eq!(short_author(""), "Unknown");
    assert_eq!(short_author("  spaces  "), "spaces");
}

#[test]
fn test_gitlab_commit_url() {
    let sub = mock_sub(RepoHost::GitLab);
    let commit = mock_commit("abc1234567", "Test", "Dev");
    let result = format_commits(&sub, &vec![commit], NOW);
    assert!(result.contains("gitlab.com/soapbox-pub/agora/commit/abc1234567"));
}

#[test]
fn single_commit_exact() {
    let sub = mock_sub(RepoHost::GitHub);
    let commit = mock_commit("abc1234567", "Fix login\n\nDetails", "Sam Thomson");
    assert_eq!(
        format_commits(&sub, &vec![commit], NOW),
        "📦 soapbox-pub/agora · main\nabc1234 Fix login\nSam T. · 10 min ago\nhttps://github.com/soapbox-pub/agora/commit/abc1234567"
    );
}

#[test]
fn two_commits_exact() {
    let sub = mock_sub(RepoHost::GitLab);
    let commits = vec![mock_commit("abc1234567", "", "MK"), mock_commit("d", "B\r\nC", "Al Bo Cy")];
    assert_eq!(
        format_commits(&sub, &commits, NOW),
        "📦 soapbox-pub/agora · main · 2 new commits\n• abc1234 (no message) — MK\n• d B — Al C.\nhttps://gitlab.com/soapbox-pub/agora/commits/main"
    );
}

#[test]
fn ages() {
    assert_eq!(time_ago(None, NOW), "unknown time");
    assert_eq!(time_ago(Some(NOW + 1), NOW), "just now");
    assert_eq!(time_ago(Some(NOW - 59), NOW), "0 min ago");
    assert_eq!(time_ago(Some(NOW - 3599), NOW), "59 min ago");
    assert_eq!(time_ago(Some(NOW - 7200), NOW), "2h ago");
    assert_eq!(time_ago(Some(NOW - 86400 * 3), NOW), "3d ago");
}

#[test]
fn uncuttable_notes_are_not_announced() {
    let sub = mock_sub(RepoHost::GitHub);
    let mut notes = "A".repeat(199);
    notes.push('é');
    let release = ReleaseInfo {
        tag: "v1".to_string(),
        name: Some("v1".to_string()),
        body: Some(notes),
        html_url: "u".to_string(),
    };
    assert!(announce_release(&sub, &release).is_none());
    let short = ReleaseInfo { body: Some("  ok  ".to_string()), ..release };
    assert_eq!(announce_release(&sub, &short).unwrap(), "🚀 soapbox-pub/agora · v1\nok\nu");
}

#[test]
fn authors_keep_their_last_initial() {
    assert_eq!(short_author("Mary Jane Watson"), "Mary W.");
    assert_eq!(short_author("Jo Ünal"), "Jo Ü.");
    assert_eq!(short_author(&"é".repeat(16)), "é".repeat(15));
    assert_eq!(short_author(&"é".repeat(15)), "é".repeat(15));
    assert_eq!(short_author("abcdefghijklmnop"), "abcdefghijklmno");
    assert_eq!(short_sha("äöüäöüäöü"), "äöüäöüä");
    let sub = mock_sub(RepoHost::GitHub);
    assert!(format_commits(&sub, &vec![mock_commit("a", "m", "Jo Ünal")], NOW).contains("Jo Ü. · "));
}
