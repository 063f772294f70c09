use concord_bots::git_monitor::{github, gitlab};
use concord_bots::git_monitor::github::Next;
use concord_bots::json::Json;

fn t(s: &str) -> Json {
    Json::Text(s.to_string())
}

fn obj(members: Vec<(&str, Json)>) -> Json {
    Json::Object(members.into_iter().map(|(k, v)| (k.to_string(), v)).collect())
}

#[test]
fn github_test_parse_commits() {
    let data = Json::Array(vec![
        obj(vec![
            ("sha", t("abc1234567890")),
            (
                "commit",
                obj(vec![
                    ("message", t("Fix bug")),
                    (
                        "author",
                        obj(vec![("name", t("Sam Thomson")), ("date", t("2024-01-15T10:30:00Z"))]),
                    ),
                ]),
            ),
            ("author", obj(vec![("login", t("samthomson"))])),
        ]),
        obj(vec![
            ("sha", t("def5678901234")),
            (
                "commit",
                obj(vec![
                    ("message", t("Add feature\n\nDetailed body")),
                    (
                        "author",
                        obj(vec![("name", t("MK Dev")), ("date", t("2024-01-16T12:00:00Z"))]),
                    ),
                ]),
            ),
        ]),
    ]);
    let commits = github::parse_commits(&data);
    assert_eq!(commits.len(), 2);
    assert_eq!(commits[0].sha, "abc1234567890");
    assert_eq!(commits[0].message, "Fix bug");
    assert_eq!(commits[0].author, "Sam Thomson");
    assert!(commits[0].authored_at.is_some());
    assert_eq!(commits[0].authored_at, Some(1705314600));

    assert_eq!(commits[1].sha, "def5678901234");
    assert_eq!(commits[1].message, "Add feature\n\nDetailed body");
    assert_eq!(commits[1].author, "MK Dev");
}

#[test]
fn github_test_parse_empty_commits() {
    let commits = github::parse_commits(&Json::Array(vec![]));
    assert!(commits.is_empty());
    assert!(github::parse_commits(&Json::Null).is_empty());
}

#[test]
fn test_parse_release() {
    let data = obj(vec![
        ("tag_name", t("v2.4.0")),
        ("name", t("Dark Mode + Bug Fixes")),
        ("body", t("Release notes here")),
        ("html_url", t("https://github.com/owner/repo/releases/tag/v2.4.0")),
    ]);
    let release = github::parse_release(&data).unwrap();
    assert_eq!(release.tag, "v2.4.0");
    assert_eq!(release.name.as_deref(), Some("Dark Mode + Bug Fixes"));
    assert_eq!(release.body.as_deref(), Some("Release notes here"));
}

#[test]
fn test_parse_github_date() {
    let ts = github::parse_github_date("2024-01-15T10:30:00Z");
    assert!(ts.is_some());
    assert!(ts.unwrap() > 0);
    assert!(github::parse_github_date("invalid").is_none());
}

#[test]
fn github_test_parse_commits_missing_fields() {
    let data = Json::Array(vec![obj(vec![("sha", t("abc123")), ("commit", obj(vec![]))])]);
    let commits = github::parse_commits(&data);
    assert_eq!(commits.len(), 1);
    assert_eq!(commits[0].sha, "abc123");
    assert_eq!(commits[0].message, "");
    assert_eq!(commits[0].author, "Unknown");
}

#[test]
fn github_author_falls_back_to_login() {
    let data = Json::Array(vec![obj(vec![("author", obj(vec![("login", t("sam"))]))])]);
    assert_eq!(github::parse_commits(&data)[0].author, "sam");
}

#[test]
fn github_tag_stands_for_release() {
    let data = Json::Array(vec![obj(vec![("name", t("v9"))])]);
    let release = github::parse_latest_tag(&data, "o", "r").unwrap();
    assert_eq!(release.tag, "v9");
    assert_eq!(release.html_url, "https://github.com/o/r/releases/tag/v9");
    assert!(github::parse_latest_tag(&Json::Array(vec![]), "o", "r").is_none());
    let nameless = Json::Array(vec![obj(vec![("name", t(""))])]);
    assert!(github::parse_latest_tag(&nameless, "o", "r").is_none());
}

#[test]
fn github_rate_limit() {
    let mut limit = github::RateLimit::default();
    assert_eq!(github::last_rate_limit_remaining(&limit), None);
    github::update_rate_limit(&mut limit, Some("4999"));
    assert_eq!(github::last_rate_limit_remaining(&limit), Some(4999));
    github::update_rate_limit(&mut limit, Some("many"));
    github::update_rate_limit(&mut limit, None);
    assert_eq!(github::last_rate_limit_remaining(&limit), Some(4999));
}

#[test]
fn github_responses() {
    assert_eq!(github::commits_response(304, "304", "o", "r", ""), Ok(Next::Nothing));
    assert_eq!(github::commits_response(200, "200 OK", "o", "r", ""), Ok(Next::Read));
    assert_eq!(
        github::commits_response(403, "403 Forbidden", "o", "r", "no"),
        Err("GitHub commits API 403 Forbidden for o/r: no".to_string())
    );
    assert_eq!(github::release_response(404, "404", "o", "r", ""), Ok(Next::AskTags));
    assert_eq!(
        github::release_response(500, "500 X", "o", "r", "b"),
        Err("GitHub releases API 500 X for o/r: b".to_string())
    );
    assert_eq!(
        github::commits_url("o", "r", "main"),
        "https://api.github.com/repos/o/r/commits?per_page=5&sha=main"
    );
    assert_eq!(github::auth_header(Some("x")), Some("Bearer x".to_string()));
    assert_eq!(github::auth_header(None), None);
}

#[test]
fn test_encode_project_path() {
    assert_eq!(gitlab::encode_project_path("soapbox-pub", "agora"), "soapbox-pub%2Fagora");
    assert_eq!(gitlab::encode_project_path("myorg", "myrepo"), "myorg%2Fmyrepo");
}

#[test]
fn gitlab_test_parse_commits() {
    let data = Json::Array(vec![
        obj(vec![
            ("id", t("abc1234567890abcdef")),
            ("message", t("Fix login bug")),
            ("author_name", t("Sam Thomson")),
            ("created_at", t("2024-01-15T10:30:00Z")),
        ]),
        obj(vec![
            ("id", t("def567890123456789")),
            ("message", t("Add feature")),
            ("author_name", t("MK Dev")),
            ("created_at", t("2024-01-16T12:00:00Z")),
        ]),
    ]);
    let commits = gitlab::parse_commits(&data);
    assert_eq!(commits.len(), 2);
    assert_eq!(commits[0].sha, "abc1234567890abcdef");
    assert_eq!(commits[0].message, "Fix login bug");
    assert_eq!(commits[0].author, "Sam Thomson");
    assert!(commits[0].authored_at.is_some());
}

#[test]
fn gitlab_test_parse_empty_commits() {
    assert!(gitlab::parse_commits(&Json::Array(vec![])).is_empty());
}

#[test]
fn gitlab_test_parse_commits_missing_fields() {
    let data = Json::Array(vec![obj(vec![("id", t("abc123"))])]);
    let commits = gitlab::parse_commits(&data);
    assert_eq!(commits.len(), 1);
    assert_eq!(commits[0].sha, "abc123");
    assert_eq!(commits[0].message, "");
    assert_eq!(commits[0].author, "Unknown");
}

#[test]
fn test_api_base() {
    assert_eq!(gitlab::api_base("https://gitlab.com"), "https://gitlab.com/api/v4");
    assert_eq!(
        gitlab::api_base("https://gitlab.example.com"),
        "https://gitlab.example.com/api/v4"
    );
}

#[test]
fn test_parse_gitlab_date() {
    let ts = gitlab::parse_gitlab_date("2024-01-15T10:30:00Z");
    assert!(ts.is_some());
    assert!(ts.unwrap() > 0);
    assert!(gitlab::parse_gitlab_date("invalid").is_none());
}

#[test]
fn gitlab_latest_release() {
    let data = Json::Array(vec![obj(vec![("tag_name", t("v1")), ("description", t("d"))])]);
    let release = gitlab::parse_latest_release(&data, "https://gitlab.com", "o", "r").unwrap();
    assert_eq!(release.html_url, "https://gitlab.com/o/r/-/releases/v1");
    assert_eq!(release.body.as_deref(), Some("d"));
    assert!(gitlab::parse_latest_release(&Json::Array(vec![]), "h", "o", "r").is_none());
    assert_eq!(
        gitlab::releases_response(404, "404", "o", "r", ""),
        Ok(Next::Nothing)
    );
    assert_eq!(
        gitlab::commits_response(404, "404 Not Found", "o", "r", "b"),
        Err("GitLab commits API 404 Not Found for o/r: b".to_string())
    );
}
