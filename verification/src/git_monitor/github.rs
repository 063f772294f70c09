//! GitHub's API: where to ask, and what the answers mean.

use vstd::prelude::*;
use crate::git_monitor::format::{CommitInfo, CommitView, ReleaseInfo, ReleaseView};
use crate::json::{Json, JsonView};
use crate::{clock, git_monitor, json, number, text};

verus! {

/// How many requests GitHub still grants, as it last said.
pub struct RateLimit {
    remaining: i64,
}

impl View for RateLimit {
    type V = i64;

    closed spec fn view(&self) -> i64 {
        self.remaining
    }
}

impl Default for RateLimit {
    fn default() -> (r: Self)
        ensures
            r@ == 5000,
    {
        RateLimit { remaining: 5000 }
    }
}

/// The requests left, once GitHub has said so.
pub open spec fn remaining_known(remaining: i64) -> Option<i64> {
    if remaining < 5000 {
        Some(remaining)
    } else {
        None
    }
}

/// The requests left, once GitHub has said so.
pub fn last_rate_limit_remaining(limit: &RateLimit) -> (r: Option<i64>)
    ensures
        r == remaining_known(limit@),
{
    if limit.remaining < 5000 {
        Some(limit.remaining)
    } else {
        None
    }
}

/// Takes over the value of a response's `x-ratelimit-remaining` header, where it is a number.
pub fn update_rate_limit(limit: &mut RateLimit, header: Option<&str>)
    ensures
        final(limit)@ == match header {
            Some(h) => match number::signed_parsed(h@) {
                Some(n) => n as i64,
                None => old(limit)@,
            },
            None => old(limit)@,
        },
{
    if let Some(h) = header {
        if let Some(n) = number::parse_i64(h) {
            limit.remaining = n;
        }
    }
}

/// Where GitHub's API is.
pub fn api_base() -> (r: &'static str)
    ensures
        r@ == "https://api.github.com"@,
{
    "https://api.github.com"
}

/// The authorization header for a token.
pub fn auth_header(token: Option<&str>) -> (r: Option<String>)
    ensures
        text::opt_view(r) == match token {
            Some(t) => Some("Bearer "@ + t@),
            None => None,
        },
{
    match token {
        Some(t) => Some(text::cat2("Bearer ", t)),
        None => None,
    }
}

/// Where the latest commits of a repository are.
pub fn commits_url(owner: &str, repo: &str, branch: &str) -> (r: String)
    ensures
        r@ == "https://api.github.com"@ + "/repos/"@ + owner@ + "/"@ + repo@
            + "/commits?per_page=5&sha="@ + branch@,
{
    text::cat7(api_base(), "/repos/", owner, "/", repo, "/commits?per_page=5&sha=", branch)
}

/// Where the latest release of a repository is.
pub fn release_url(owner: &str, repo: &str) -> (r: String)
    ensures
        r@ == "https://api.github.com"@ + "/repos/"@ + owner@ + "/"@ + repo@ + "/releases/latest"@,
{
    text::cat6(api_base(), "/repos/", owner, "/", repo, "/releases/latest")
}

/// Where the latest tag of a repository is.
pub fn tags_url(owner: &str, repo: &str) -> (r: String)
    ensures
        r@ == "https://api.github.com"@ + "/repos/"@ + owner@ + "/"@ + repo@ + "/tags?per_page=1"@,
{
    text::cat6(api_base(), "/repos/", owner, "/", repo, "/tags?per_page=1")
}

/// What is to be done with a response.
#[derive(Debug, Clone, Copy, PartialEq, Eq, Structural)]
pub enum Next {
    /// Read the body.
    Read,
    /// There is nothing to read.
    Nothing,
    /// Ask for the latest tag instead.
    AskTags,
}

/// What an error response is reported as.
pub open spec fn api_error(
    what: Seq<char>,
    status: Seq<char>,
    owner: Seq<char>,
    repo: Seq<char>,
    body: Seq<char>,
) -> Seq<char> {
    what + " API "@ + status + " for "@ + owner + "/"@ + repo + ": "@ + body
}

/// What an error response is reported as.
pub fn api_error_text(what: &str, status: &str, owner: &str, repo: &str, body: &str) -> (r: String)
    ensures
        r@ == api_error(what@, status@, owner@, repo@, body@),
{
    let mut s = text::cat7(what, " API ", status, " for ", owner, "/", repo);
    s.push_str(": ");
    s.push_str(body);
    s
}

/// What to do with the response to a request for commits: `code` is its status code, `status` the
/// status as text.
pub fn commits_response(code: u16, status: &str, owner: &str, repo: &str, body: &str) -> (r: Result<
    Next,
    String,
>)
    ensures
        match r {
            Ok(next) => if code == 304 {
                next == Next::Nothing
            } else {
                next == Next::Read && 200 <= code < 300
            },
            Err(e) => code != 304 && !(200 <= code < 300) && e@ == api_error(
                "GitHub commits"@,
                status@,
                owner@,
                repo@,
                body@,
            ),
        },
{
    if code == 304 {
        Ok(Next::Nothing)
    } else if code >= 200 && code < 300 {
        Ok(Next::Read)
    } else {
        Err(api_error_text("GitHub commits", status, owner, repo, body))
    }
}

/// What to do with the response to a request for the latest release.
pub fn release_response(code: u16, status: &str, owner: &str, repo: &str, body: &str) -> (r: Result<
    Next,
    String,
>)
    ensures
        match r {
            Ok(next) => if code == 404 {
                next == Next::AskTags
            } else {
                next == Next::Read && 200 <= code < 300
            },
            Err(e) => code != 404 && !(200 <= code < 300) && e@ == api_error(
                "GitHub releases"@,
                status@,
                owner@,
                repo@,
                body@,
            ),
        },
{
    if code == 404 {
        Ok(Next::AskTags)
    } else if code >= 200 && code < 300 {
        Ok(Next::Read)
    } else {
        Err(api_error_text("GitHub releases", status, owner, repo, body))
    }
}

/// The commit that an element of GitHub's list describes.
pub open spec fn commit_of(c: JsonView) -> CommitView {
    let detail = c.at("commit"@);
    CommitView {
        sha: text::or_else(c.text_at("sha"@), ""@),
        message: text::or_else(detail.text_at("message"@), ""@),
        author: match detail.at("author"@).text_at("name"@) {
            Some(name) => name,
            None => text::or_else(c.at("author"@).text_at("login"@), "Unknown"@),
        },
        authored_at: match detail.at("author"@).text_at("date"@) {
            Some(date) => clock::rfc3339_secs(date),
            None => None,
        },
    }
}

/// The commits that GitHub lists.
pub open spec fn commits_of(data: JsonView) -> Seq<CommitView> {
    match data.items() {
        Some(items) => items.map_values(|c: JsonView| commit_of(c)),
        None => Seq::empty(),
    }
}

/// Reads a date of GitHub's as Unix seconds.
pub fn parse_github_date(s: &str) -> (r: Option<i64>)
    ensures
        r == clock::rfc3339_secs(s@),
{
    clock::parse_rfc3339(s)
}

fn read_commit(c: &Json) -> (r: CommitInfo)
    ensures
        r@ == commit_of(c@),
{
    let author = match c.str_at3("commit", "author", "name") {
        Some(name) => name.to_owned(),
        None => text::own_or(c.str_at2("author", "login"), "Unknown"),
    };
    CommitInfo {
        sha: text::own_or(c.str_at("sha"), ""),
        message: text::own_or(c.str_at2("commit", "message"), ""),
        author,
        authored_at: match c.str_at3("commit", "author", "date") {
            Some(date) => parse_github_date(date),
            None => None,
        },
    }
}

/// Reads GitHub's list of commits.
pub fn parse_commits(data: &Json) -> (r: Vec<CommitInfo>)
    ensures
        git_monitor::format::commit_views(r@) == commits_of(data@),
{
    let mut out: Vec<CommitInfo> = Vec::new();
    match data.as_array() {
        None => {
            proof {
                assert(git_monitor::format::commit_views(out@) =~= Seq::empty());
            }
            out
        },
        Some(items) => {
            let ghost seen = json::json_views(items@);
            let mut i: usize = 0;
            while i < items.len()
                invariant
                    i <= items.len(),
                    seen == json::json_views(items@),
                    out.len() == i,
                    forall|k: int| 0 <= k < i ==> (#[trigger] out@[k])@ == commit_of(seen[k]),
                decreases items.len() - i,
            {
                proof {
                    assert(seen[i as int] == items@[i as int]@);
                }
                out.push(read_commit(&items[i]));
                i = i + 1;
            }
            proof {
                assert(git_monitor::format::commit_views(out@) =~= commits_of(data@));
            }
            out
        },
    }
}

/// The release that GitHub describes.
pub open spec fn release_of(data: JsonView) -> Option<ReleaseView> {
    match data.text_at("tag_name"@) {
        Some(tag) => Some(
            ReleaseView {
                tag,
                name: data.text_at("name"@),
                body: data.text_at("body"@),
                html_url: text::or_else(data.text_at("html_url"@), ""@),
            },
        ),
        None => None,
    }
}

/// The view of an optional release.
pub open spec fn opt_release(r: Option<ReleaseInfo>) -> Option<ReleaseView> {
    match r {
        Some(v) => Some(v@),
        None => None,
    }
}

/// Reads GitHub's description of a release.
pub fn parse_release(data: &Json) -> (r: Option<ReleaseInfo>)
    ensures
        opt_release(r) == release_of(data@),
{
    match data.str_at("tag_name") {
        None => None,
        Some(tag) => Some(
            ReleaseInfo {
                tag: tag.to_owned(),
                name: text::own_opt(data.str_at("name")),
                body: text::own_opt(data.str_at("body")),
                html_url: text::own_or(data.str_at("html_url"), ""),
            },
        ),
    }
}

/// The release that the first tag of GitHub's list stands for.
pub open spec fn tag_release_of(
    data: JsonView,
    owner: Seq<char>,
    repo: Seq<char>,
) -> Option<ReleaseView> {
    match data.nth(0).text_at("name"@) {
        Some(tag) => if tag.len() == 0 {
            None
        } else {
            Some(
                ReleaseView {
                    tag,
                    name: None,
                    body: None,
                    html_url: "https://github.com/"@ + owner + "/"@ + repo + "/releases/tag/"@
                        + tag,
                },
            )
        },
        None => None,
    }
}

/// Reads GitHub's list of tags, whose first stands for a release.
pub fn parse_latest_tag(data: &Json, owner: &str, repo: &str) -> (r: Option<ReleaseInfo>)
    ensures
        opt_release(r) == tag_release_of(data@, owner@, repo@),
{
    match data.get_index(0) {
        None => None,
        Some(first) => match first.str_at("name") {
            None => None,
            Some(tag) => {
                if tag.is_empty() {
                    None
                } else {
                    Some(
                        ReleaseInfo {
                            tag: tag.to_owned(),
                            name: None,
                            body: None,
                            html_url: text::cat6(
                                "https://github.com/",
                                owner,
                                "/",
                                repo,
                                "/releases/tag/",
                                tag,
                            ),
                        },
                    )
                }
            },
        },
    }
}

} // verus!
