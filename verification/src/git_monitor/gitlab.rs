//! GitLab's API: where to ask, and what the answers mean.

use vstd::prelude::*;
use crate::git_monitor::format::{CommitInfo, CommitView, ReleaseInfo, ReleaseView};
use crate::git_monitor::github::Next;
use crate::json::{Json, JsonView};
use crate::{clock, git_monitor, json, text};

verus! {

/// Where a GitLab host's API is.
pub fn api_base(gitlab_host: &str) -> (r: String)
    ensures
        r@ == gitlab_host@ + "/api/v4"@,
{
    text::cat2(gitlab_host, "/api/v4")
}

/// A project's path as one URL segment.
pub fn encode_project_path(owner: &str, repo: &str) -> (r: String)
    ensures
        r@ == owner@ + "%2F"@ + repo@,
{
    text::cat3(owner, "%2F", repo)
}

/// Where the latest commits of a project are.
pub fn commits_url(gitlab_host: &str, owner: &str, repo: &str, branch: &str) -> (r: String)
    ensures
        r@ == gitlab_host@ + "/api/v4"@ + "/projects/"@ + (owner@ + "%2F"@ + repo@)
            + "/repository/commits?per_page=5&ref_name="@ + branch@,
{
    text::cat5(
        api_base(gitlab_host).as_str(),
        "/projects/",
        encode_project_path(owner, repo).as_str(),
        "/repository/commits?per_page=5&ref_name=",
        branch,
    )
}

/// Where the latest release of a project is.
pub fn releases_url(gitlab_host: &str, owner: &str, repo: &str) -> (r: String)
    ensures
        r@ == gitlab_host@ + "/api/v4"@ + "/projects/"@ + (owner@ + "%2F"@ + repo@)
            + "/releases?per_page=1"@,
{
    text::cat4(
        api_base(gitlab_host).as_str(),
        "/projects/",
        encode_project_path(owner, repo).as_str(),
        "/releases?per_page=1",
    )
}

/// What to do with the response to a request for commits.
pub fn commits_response(code: u16, status: &str, owner: &str, repo: &str, body: &str) -> (r: Result<
    Next,
    String,
>)
    ensures
        match r {
            Ok(next) => next == Next::Read && 200 <= code < 300,
            Err(e) => !(200 <= code < 300) && e@ == git_monitor::github::api_error(
                "GitLab commits"@,
                status@,
                owner@,
                repo@,
                body@,
            ),
        },
{
    if code >= 200 && code < 300 {
        Ok(Next::Read)
    } else {
        Err(
            git_monitor::github::api_error_text("GitLab commits", status, owner, repo, body),
        )
    }
}

/// What to do with the response to a request for releases.
pub fn releases_response(
    code: u16,
    status: &str,
    owner: &str,
    repo: &str,
    body: &str,
) -> (r: Result<Next, String>)
    ensures
        match r {
            Ok(next) => if code == 404 {
                next == Next::Nothing
            } else {
                next == Next::Read && 200 <= code < 300
            },
            Err(e) => code != 404 && !(200 <= code < 300) && e@ == git_monitor::github::api_error(
                "GitLab releases"@,
                status@,
                owner@,
                repo@,
                body@,
            ),
        },
{
    if code == 404 {
        Ok(Next::Nothing)
    } else if code >= 200 && code < 300 {
        Ok(Next::Read)
    } else {
        Err(
            git_monitor::github::api_error_text("GitLab releases", status, owner, repo, body),
        )
    }
}

/// The commit that an element of GitLab's list describes.
pub open spec fn commit_of(c: JsonView) -> CommitView {
    CommitView {
        sha: text::or_else(c.text_at("id"@), ""@),
        message: text::or_else(c.text_at("message"@), ""@),
        author: text::or_else(c.text_at("author_name"@), "Unknown"@),
        authored_at: match c.text_at("created_at"@) {
            Some(date) => clock::rfc3339_secs(date),
            None => None,
        },
    }
}

/// The commits that GitLab lists.
pub open spec fn commits_of(data: JsonView) -> Seq<CommitView> {
    match data.items() {
        Some(items) => items.map_values(|c: JsonView| commit_of(c)),
        None => Seq::empty(),
    }
}

/// Reads a date of GitLab's as Unix seconds.
pub fn parse_gitlab_date(s: &str) -> (r: Option<i64>)
    ensures
        r == clock::rfc3339_secs(s@),
{
    clock::parse_rfc3339(s)
}

/// Reads GitLab's list of commits.
pub fn parse_commits(data: &Json) -> (r: Vec<CommitInfo>)
    ensures
        git_monitor::format::commit_views(r@) == commits_of(data@),
{
    let mut out: Vec<CommitInfo> = Vec::new();
    match data.as_array() {
        None => {
            proof {
                assert(git_monitor::format::commit_views(out@) =~= Seq::empty());
            }
            out
        },
        Some(items) => {
            let ghost seen = json::json_views(items@);
            let mut i: usize = 0;
            while i < items.len()
                invariant
                    i <= items.len(),
                    seen == json::json_views(items@),
                    out.len() == i,
                    forall|k: int| 0 <= k < i ==> (#[trigger] out@[k])@ == commit_of(seen[k]),
                decreases items.len() - i,
            {
                let c = &items[i];
                proof {
                    assert(seen[i as int] == c@);
                }
                out.push(
                    CommitInfo {
                        sha: text::own_or(c.str_at("id"), ""),
                        message: text::own_or(c.str_at("message"), ""),
                        author: text::own_or(c.str_at("author_name"), "Unknown"),
                        authored_at: match c.str_at("created_at") {
                            Some(date) => parse_gitlab_date(date),
                            None => None,
                        },
                    },
                );
                i = i + 1;
            }
            proof {
                assert(git_monitor::format::commit_views(out@) =~= commits_of(data@));
            }
            out
        },
    }
}

/// The first release of GitLab's list.
pub open spec fn release_of(
    data: JsonView,
    gitlab_host: Seq<char>,
    owner: Seq<char>,
    repo: Seq<char>,
) -> Option<ReleaseView> {
    let first = data.nth(0);
    match first.text_at("tag_name"@) {
        Some(tag) => if tag.len() == 0 {
            None
        } else {
            Some(
                ReleaseView {
                    tag,
                    name: first.text_at("name"@),
                    body: first.text_at("description"@),
                    html_url: gitlab_host + "/"@ + owner + "/"@ + repo + "/-/releases/"@ + tag,
                },
            )
        },
        None => None,
    }
}

/// Reads GitLab's list of releases, of which the first counts.
pub fn parse_latest_release(data: &Json, gitlab_host: &str, owner: &str, repo: &str) -> (r: Option<
    ReleaseInfo,
>)
    ensures
        git_monitor::github::opt_release(r) == release_of(data@, gitlab_host@, owner@, repo@),
{
    match data.get_index(0) {
        None => None,
        Some(first) => match first.str_at("tag_name") {
            None => None,
            Some(tag) => {
                if tag.is_empty() {
                    None
                } else {
                    Some(
                        ReleaseInfo {
                            tag: tag.to_owned(),
                            name: text::own_opt(first.str_at("name")),
                            body: text::own_opt(first.str_at("description")),
                            html_url: text::cat7(
                                gitlab_host,
                                "/",
                                owner,
                                "/",
                                repo,
                                "/-/releases/",
                                tag,
                            ),
                        },
                    )
                }
            },
        },
    }
}

} // verus!
