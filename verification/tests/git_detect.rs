use concord_bots::git_monitor::detect::parse_repo;
use concord_bots::git_monitor::store::RepoHost;

#[test]
fn test_form1_https_github() {
    let r = parse_repo("https://github.com/owner/repo").unwrap();
    assert_eq!(r.host, RepoHost::GitHub);
    assert_eq!(r.owner, "owner");
    assert_eq!(r.repo, "repo");
    assert_eq!(r.slug(), "owner/repo");
    assert_eq!(r.url(), "https://github.com/owner/repo");
}

#[test]
fn test_form2_bare_github_com() {
    let r = parse_repo("github.com/owner/repo").unwrap();
    assert_eq!(r.host, RepoHost::GitHub);
    assert_eq!(r.owner, "owner");
    assert_eq!(r.repo, "repo");
}

#[test]
fn test_form3_bare_slug() {
    let r = parse_repo("owner/repo").unwrap();
    assert_eq!(r.host, RepoHost::GitHub);
    assert_eq!(r.owner, "owner");
    assert_eq!(r.repo, "repo");
}

#[test]
fn test_form4_explicit_prefix_github() {
    let r = parse_repo("github owner/repo").unwrap();
    assert_eq!(r.host, RepoHost::GitHub);
    assert_eq!(r.owner, "owner");
    assert_eq!(r.repo, "repo");
}

#[test]
fn test_form4_explicit_prefix_gitlab() {
    let r = parse_repo("gitlab soapbox-pub/agora").unwrap();
    assert_eq!(r.host, RepoHost::GitLab);
    assert_eq!(r.owner, "soapbox-pub");
    assert_eq!(r.repo, "agora");
}

#[test]
fn test_form5_https_gitlab() {
    let r = parse_repo("https://gitlab.com/soapbox-pub/agora").unwrap();
    assert_eq!(r.host, RepoHost::GitLab);
    assert_eq!(r.owner, "soapbox-pub");
    assert_eq!(r.repo, "agora");
}

#[test]
fn test_self_hosted_gitlab() {
    let r = parse_repo("https://gitlab.example.com/myorg/myrepo").unwrap();
    assert_eq!(r.host, RepoHost::GitLab);
    assert_eq!(r.owner, "myorg");
    assert_eq!(r.repo, "myrepo");
}

#[test]
fn test_trailing_slash() {
    let r = parse_repo("https://github.com/owner/repo/").unwrap();
    assert_eq!(r.owner, "owner");
    assert_eq!(r.repo, "repo");
}

#[test]
fn test_dot_git_suffix() {
    let r = parse_repo("https://github.com/owner/repo.git").unwrap();
    assert_eq!(r.owner, "owner");
    assert_eq!(r.repo, "repo");
}

#[test]
fn test_case_insensitive_prefix() {
    let r = parse_repo("GitHub Owner/Repo").unwrap();
    assert_eq!(r.host, RepoHost::GitHub);
    assert_eq!(r.owner, "Owner");
    assert_eq!(r.repo, "Repo");
}

#[test]
fn test_empty_input() {
    assert!(parse_repo("").is_err());
    assert!(parse_repo("   ").is_err());
}

#[test]
fn test_invalid_no_slash() {
    assert!(parse_repo("justsometext").is_err());
}

#[test]
fn test_url_method() {
    let r = parse_repo("gitlab org/repo").unwrap();
    assert_eq!(r.url(), "https://gitlab.com/org/repo");

    let r = parse_repo("owner/repo").unwrap();
    assert_eq!(r.url(), "https://github.com/owner/repo");
}

#[test]
fn test_extra_path_segments() {
    // Should take first two segments
    let r = parse_repo("https://github.com/owner/repo/tree/main").unwrap();
    assert_eq!(r.owner, "owner");
    assert_eq!(r.repo, "repo");
}

#[test]
fn addresses_read_back() {
    for typed in ["owner/repo", "gitlab soapbox-pub/agora", "gitlab.com/a/b", "github ü/.gitx"] {
        let r = parse_repo(typed).unwrap();
        let url = r.url();
        let bare = url.strip_prefix("https://").unwrap().to_string();
        for again in [
            url.clone(),
            format!("{}/", url),
            format!("{}.git", url),
            format!("{}.git//", url),
            format!("{}/tree/main", url),
            format!("  {}\t", url),
            format!("http://{}", bare),
            bare,
        ] {
            let s = parse_repo(&again).unwrap();
            assert_eq!((s.host, &s.owner, &s.repo), (r.host, &r.owner, &r.repo));
        }
        let s = parse_repo(&format!("{} {}", r.host.as_str(), r.slug())).unwrap();
        assert_eq!((s.host, &s.owner, &s.repo), (r.host, &r.owner, &r.repo));
    }
    assert_eq!(parse_repo("https:/repo").unwrap().owner, "https:");
    assert!(parse_repo("github.com/repo").is_err());
}
