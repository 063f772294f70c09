//! What is said of new commits and releases.

use vstd::prelude::*;
use crate::git_monitor::store::{SubView, Subscription};
use crate::{number, text};

verus! {

/// A commit.
pub struct CommitInfo {
    pub sha: String,
    pub message: String,
    pub author: String,
    /// Unix seconds.
    pub authored_at: Option<i64>,
}

/// What a commit says.
pub struct CommitView {
    pub sha: Seq<char>,
    pub message: Seq<char>,
    pub author: Seq<char>,
    pub authored_at: Option<i64>,
}

impl View for CommitInfo {
    type V = CommitView;

    open spec fn view(&self) -> CommitView {
        CommitView {
            sha: self.sha@,
            message: self.message@,
            author: self.author@,
            authored_at: self.authored_at,
        }
    }
}

impl CommitInfo {
    /// A copy.
    pub fn copy(&self) -> (r: CommitInfo)
        ensures
            r@ == self@,
    {
        CommitInfo {
            sha: self.sha.clone(),
            message: self.message.clone(),
            author: self.author.clone(),
            authored_at: self.authored_at,
        }
    }
}

/// The views of commits.
pub open spec fn commit_views(v: Seq<CommitInfo>) -> Seq<CommitView> {
    v.map_values(|c: CommitInfo| c@)
}

/// A release.
pub struct ReleaseInfo {
    pub tag: String,
    pub name: Option<String>,
    pub body: Option<String>,
    pub html_url: String,
}

/// What a release says.
pub struct ReleaseView {
    pub tag: Seq<char>,
    pub name: Option<Seq<char>>,
    pub body: Option<Seq<char>>,
    pub html_url: Seq<char>,
}

impl View for ReleaseInfo {
    type V = ReleaseView;

    open spec fn view(&self) -> ReleaseView {
        ReleaseView {
            tag: self.tag@,
            name: text::opt_view(self.name),
            body: text::opt_view(self.body),
            html_url: self.html_url@,
        }
    }
}

// ---------------------------------------------------------------------------
// Parts
// ---------------------------------------------------------------------------

/// The first seven characters of a commit id.
pub open spec fn sha_shortened(sha: Seq<char>) -> Seq<char> {
    text::at_most(sha, 7)
}

/// The first seven characters of a commit id.
pub fn short_sha<'a>(sha: &'a str) -> (r: &'a str)
    ensures
        r@ == sha_shortened(sha@),
{
    text::first_chars(sha, 7)
}

/// An author's first name and the initial of the last, or at most fifteen characters of a name
/// of one word.
pub open spec fn author_shortened(author: Seq<char>) -> Seq<char> {
    let name = text::trimmed(author);
    let parts = text::words(name);
    if name.len() == 0 {
        "Unknown"@
    } else if parts.len() >= 2 {
        parts[0] + " "@ + text::at_most(parts.last(), 1) + "."@
    } else {
        text::at_most(name, 15)
    }
}

/// A shortened author's name.
pub fn short_author(author: &str) -> (r: String)
    ensures
        r@ == author_shortened(author@),
{
    let name = text::trim(author);
    let parts = text::split_words(name);
    if name.is_empty() {
        return "Unknown".to_owned();
    }
    let n: usize = parts.len();
    if n >= 2 {
        proof {
            let all = text::views(parts@);
            assert(all[0] == parts@[0]@ && all.last() == parts@[n - 1]@);
        }
        let initial = text::first_chars(parts[n - 1].as_str(), 1);
        text::cat4(parts[0].as_str(), " ", initial, ".")
    } else {
        text::first_chars(name, 15).to_owned()
    }
}

/// How long ago a time is, in words.
pub open spec fn age_text(ts: Option<i64>, now: i64) -> Seq<char> {
    match ts {
        None => "unknown time"@,
        Some(t) => {
            let diff = now - t;
            if diff < 0 {
                "just now"@
            } else if diff < 3600 {
                number::decimal((diff / 60) as nat) + " min ago"@
            } else if diff < 86400 {
                number::decimal((diff / 3600) as nat) + "h ago"@
            } else {
                number::decimal((diff / 86400) as nat) + "d ago"@
            }
        },
    }
}

/// How long ago a time is, in words.
pub fn time_ago(ts: Option<i64>, now: i64) -> (r: String)
    ensures
        r@ == age_text(ts, now),
{
    match ts {
        None => "unknown time".to_owned(),
        Some(t) => {
            if now < t {
                return "just now".to_owned();
            }
            let diff: u64 = ((now as i128) - (t as i128)) as u64;
            if diff < 3600 {
                text::cat2(number::show(diff / 60).as_str(), " min ago")
            } else if diff < 86400 {
                text::cat2(number::show(diff / 3600).as_str(), "h ago")
            } else {
                text::cat2(number::show(diff / 86400).as_str(), "d ago")
            }
        },
    }
}

/// The first line of a commit message.
pub open spec fn headline(message: Seq<char>) -> Seq<char> {
    let lines = text::text_lines(message);
    if lines.len() == 0 {
        "(no message)"@
    } else {
        lines[0]
    }
}

fn first_line(message: &str) -> (r: String)
    ensures
        r@ == headline(message@),
{
    let lines = text::lines(message);
    if lines.len() == 0 {
        "(no message)".to_owned()
    } else {
        proof {
            assert(text::views(lines@)[0] == lines@[0]@);
        }
        lines[0].clone()
    }
}

// ---------------------------------------------------------------------------
// Commits
// ---------------------------------------------------------------------------

/// The line of one commit among several.
pub open spec fn commit_line(c: CommitView) -> Seq<char> {
    "• "@ + sha_shortened(c.sha) + " "@ + headline(c.message) + " — "@ + author_shortened(
        c.author,
    )
}

/// The lines of the first `n` commits.
pub open spec fn commit_lines(commits: Seq<CommitView>, n: int) -> Seq<Seq<char>>
    decreases n,
{
    if n <= 0 {
        Seq::empty()
    } else {
        commit_lines(commits, n - 1).push(commit_line(commits[n - 1]))
    }
}

/// The announcement of new commits: one in detail, up to three as a list, more as a summary.
pub open spec fn commits_text(sub: SubView, commits: Seq<CommitView>, now: i64) -> Seq<char> {
    let slug = sub.full_slug;
    let n = commits.len();
    let all = sub.host.url() + "/"@ + slug + "/commits/"@ + "main"@;
    if n == 0 {
        Seq::empty()
    } else if n == 1 {
        let c = commits[0];
        "📦 "@ + slug + " · main\n"@ + sha_shortened(c.sha) + " "@ + headline(c.message) + "\n"@
            + author_shortened(c.author) + " · "@ + age_text(c.authored_at, now) + "\n"@
            + sub.host.url() + "/"@ + slug + "/commit/"@ + c.sha
    } else if n <= 3 {
        let head = "📦 "@ + slug + " · main · "@ + number::decimal(n) + " new commits"@;
        text::joined(seq![head] + commit_lines(commits, n as int).push(all), "\n"@)
    } else {
        let c = commits.last();
        "📦 "@ + slug + " · main · "@ + number::decimal(n) + " new commits\nLatest: "@
            + sha_shortened(c.sha) + " "@ + headline(c.message) + " ("@ + author_shortened(
            c.author,
        ) + ")\n"@ + all
    }
}

fn all_commits_url(sub: &Subscription) -> (r: String)
    ensures
        r@ == sub@.host.url() + "/"@ + sub@.full_slug + "/commits/"@ + "main"@,
{
    text::cat5(sub.host.base_url(), "/", sub.full_slug.as_str(), "/commits/", "main")
}

/// The announcement of new commits, the oldest first.
pub fn format_commits(sub: &Subscription, commits: &Vec<CommitInfo>, now: i64) -> (r: String)
    ensures
        r@ == commits_text(sub@, commit_views(commits@), now),
{
    let ghost all = commit_views(commits@);
    let slug = sub.full_slug.as_str();
    let n: usize = commits.len();
    if n == 0 {
        return String::new();
    }
    if n == 1 {
        let c = &commits[0];
        proof {
            assert(all[0] == c@);
        }
        let mut s = text::cat5(
            "📦 ",
            slug,
            " · main\n",
            short_sha(c.sha.as_str()),
            " ",
        );
        s.push_str(first_line(c.message.as_str()).as_str());
        s.push_str("\n");
        s.push_str(short_author(c.author.as_str()).as_str());
        s.push_str(" · ");
        s.push_str(time_ago(c.authored_at, now).as_str());
        s.push_str("\n");
        s.push_str(sub.host.base_url());
        s.push_str("/");
        s.push_str(slug);
        s.push_str("/commit/");
        s.push_str(c.sha.as_str());
        return s;
    }
    if n <= 3 {
        let mut lines: Vec<String> = Vec::new();
        lines.push(
            text::cat5("📦 ", slug, " · main · ", number::show_size(n).as_str(), " new commits"),
        );
        let ghost head = lines@[0]@;
        let mut i: usize = 0;
        proof {
            assert(text::views(lines@) =~= seq![head] + commit_lines(all, 0));
        }
        while i < n
            invariant
                i <= n == commits.len(),
                n <= 3,
                all == commit_views(commits@),
                text::views(lines@) == seq![head] + commit_lines(all, i as int),
            decreases n - i,
        {
            let c = &commits[i];
            proof {
                assert(all[i as int] == c@);
            }
            let ghost before = lines@;
            lines.push(
                text::cat6(
                    "• ",
                    short_sha(c.sha.as_str()),
                    " ",
                    first_line(c.message.as_str()).as_str(),
                    " — ",
                    short_author(c.author.as_str()).as_str(),
                ),
            );
            proof {
                assert(text::views(lines@) =~= text::views(before).push(commit_line(c@)));
                assert(text::views(lines@) =~= seq![head] + commit_lines(all, i + 1));
            }
            i = i + 1;
        }
        let ghost before = lines@;
        let last = all_commits_url(sub);
        let ghost tail = last@;
        lines.push(last);
        proof {
            assert(text::views(lines@) =~= text::views(before).push(tail));
            assert(text::views(lines@) =~= seq![head] + commit_lines(all, n as int).push(tail));
        }
        return text::join(&lines, "\n");
    }
    let c = &commits[n - 1];
    proof {
        assert(all.last() == c@);
    }
    let mut s = text::cat7(
        "📦 ",
        slug,
        " · main · ",
        number::show_size(n).as_str(),
        " new commits\nLatest: ",
        short_sha(c.sha.as_str()),
        " ",
    );
    s.push_str(first_line(c.message.as_str()).as_str());
    s.push_str(" (");
    s.push_str(short_author(c.author.as_str()).as_str());
    s.push_str(")\n");
    s.push_str(all_commits_url(sub).as_str());
    s
}

// ---------------------------------------------------------------------------
// Releases
// ---------------------------------------------------------------------------

/// Whether the notes of a release can be cut at their two hundredth byte.
pub open spec fn notes_cuttable(r: ReleaseView) -> bool {
    match r.body {
        Some(notes) => text::byte_len(text::trimmed(notes)) > 200 ==> text::at_boundary(
            text::trimmed(notes),
            200,
        ),
        None => true,
    }
}

/// The title line of a release, where it has a name of its own.
pub open spec fn release_title(r: ReleaseView) -> Seq<char> {
    match r.name {
        Some(name) => if name.len() > 0 && name != r.tag {
            "\""@ + name + "\"\n"@
        } else {
            Seq::empty()
        },
        None => Seq::empty(),
    }
}

/// The notes of a release, at most two hundred bytes of them.
pub open spec fn release_notes(r: ReleaseView) -> Seq<char> {
    match r.body {
        Some(notes) => {
            let t = text::trimmed(notes);
            if text::byte_len(t) > 200 {
                text::first_bytes(t, 200) + "…"@
            } else {
                t
            }
        },
        None => Seq::empty(),
    }
}

/// The announcement of a release.
pub open spec fn release_text(sub: SubView, r: ReleaseView) -> Seq<char> {
    let body = release_title(r) + release_notes(r);
    let url = if r.html_url.len() == 0 {
        sub.host.url() + "/"@ + sub.full_slug + "/releases/tag/"@ + r.tag
    } else {
        r.html_url
    };
    if body.len() == 0 {
        "🚀 "@ + sub.full_slug + " · "@ + r.tag + "\n"@ + url
    } else {
        "🚀 "@ + sub.full_slug + " · "@ + r.tag + "\n"@ + body + "\n"@ + url
    }
}

/// The announcement of a release.
pub fn format_release(sub: &Subscription, release: &ReleaseInfo) -> (r: String)
    requires
        notes_cuttable(release@),
    ensures
        r@ == release_text(sub@, release@),
{
    let mut body = String::new();
    if let Some(name) = &release.name {
        if !name.as_str().is_empty() && !text::same(name.as_str(), release.tag.as_str()) {
            body.push_str("\"");
            body.push_str(name.as_str());
            body.push_str("\"\n");
        }
    }
    proof {
        assert(body@ =~= release_title(release@));
    }
    let ghost title = body@;
    if let Some(notes) = &release.body {
        let trimmed = text::trim(notes.as_str());
        if text::len_bytes(trimmed) > 200 {
            let (head, _) = text::split_at_byte(trimmed, 200);
            body.push_str(head);
            body.push_str("…");
        } else {
            body.push_str(trimmed);
        }
    }
    proof {
        assert(body@ =~= title + release_notes(release@));
    }
    let url = if release.html_url.as_str().is_empty() {
        text::cat5(
            sub.host.base_url(),
            "/",
            sub.full_slug.as_str(),
            "/releases/tag/",
            release.tag.as_str(),
        )
    } else {
        release.html_url.clone()
    };
    let mut s = text::cat5(
        "🚀 ",
        sub.full_slug.as_str(),
        " · ",
        release.tag.as_str(),
        "\n",
    );
    if !body.as_str().is_empty() {
        s.push_str(body.as_str());
        s.push_str("\n");
    }
    s.push_str(url.as_str());
    s
}

/// The announcement of a release, or nothing where its notes cannot be cut.
pub fn announce_release(sub: &Subscription, release: &ReleaseInfo) -> (r: Option<String>)
    ensures
        match r {
            Some(s) => notes_cuttable(release@) && s@ == release_text(sub@, release@),
            None => !notes_cuttable(release@),
        },
{
    if let Some(notes) = &release.body {
        let trimmed = text::trim(notes.as_str());
        if text::len_bytes(trimmed) > 200 && !trimmed.is_char_boundary(200) {
            return None;
        }
    }
    Some(format_release(sub, release))
}

} // verus!
