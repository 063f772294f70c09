//! What holds of the announcements as a whole.

use vstd::prelude::*;
use crate::git_monitor::format::{CommitView, ReleaseView};
use crate::git_monitor::store::SubView;
use crate::git_monitor;
use crate::git_monitor::{github, gitlab, poll, store};
use crate::json::JsonView;
use crate::{number, order, text};

verus! {

// ---------------------------------------------------------------------------
// Which commits are announced
// ---------------------------------------------------------------------------

/// Whether a text holds another one, with something before and behind it.
pub open spec fn holds(whole: Seq<char>, part: Seq<char>) -> bool {
    exists|before: Seq<char>, behind: Seq<char>| #[trigger] ((before + part) + behind) == whole
}

/// The id of a commit as it is shown: at most seven characters of it.
pub open spec fn shown_id(sha: Seq<char>) -> Seq<char> {
    if sha.len() <= 7 {
        sha
    } else {
        sha.subrange(0, 7)
    }
}

/// The first look at a repository is silent, and so is one at which nothing came in since the last,
/// or for a channel that wants no commits. Any other is announced.
pub proof fn law_when_commits_are_announced(
    sub: SubView,
    commits: Seq<CommitView>,
    post: bool,
    now: i64,
)
    ensures
        poll::commits_to_announce(sub, commits, post, now) is Some <==> post && sub.last_commit_sha
            is Some && commits.len() > 0 && commits[0].sha != sub.last_commit_sha->0,
{
    if sub.last_commit_sha is Some {
        lemma_until_bounds(commits, sub.last_commit_sha->0);
    }
}

/// The newest id is what is remembered, wherever something came in that was not known.
pub proof fn law_newest_id_is_remembered(sub: SubView, commits: Seq<CommitView>)
    ensures
        poll::sha_to_keep(sub, commits) == if commits.len() > 0 && sub.last_commit_sha != Some(
            commits[0].sha,
        ) {
            Some(commits[0].sha)
        } else {
            None
        },
{
    if sub.last_commit_sha is Some {
        lemma_until_bounds(commits, sub.last_commit_sha->0);
    }
}

/// Where the last known commit is no longer listed, all that is listed is new, the oldest first.
pub proof fn law_unknown_history_is_all_new(commits: Seq<CommitView>, last: Seq<char>)
    requires
        forall|i: int| 0 <= i < commits.len() ==> (#[trigger] commits[i]).sha != last,
    ensures
        poll::new_commits(commits, last).len() == commits.len(),
        forall|i: int|
            0 <= i < commits.len() ==> #[trigger] poll::new_commits(commits, last)[i]
                == commits[commits.len() - 1 - i],
{
    lemma_until_bounds(commits, last);
    assert(commits.take(commits.len() as int) =~= commits);
}

/// What is new comes the oldest first: the newest commit of the answer is the last one that is
/// announced, and none that is announced is the known one or older.
pub proof fn law_new_commits_in_order(commits: Seq<CommitView>, last: Seq<char>)
    requires
        commits.len() > 0,
        commits[0].sha != last,
    ensures
        poll::new_commits(commits, last).len() > 0,
        poll::new_commits(commits, last).last() == commits[0],
        forall|i: int|
            0 <= i < poll::new_commits(commits, last).len() ==> (#[trigger] poll::new_commits(
                commits,
                last,
            )[i]).sha != last && poll::new_commits(commits, last)[i]
                == commits[poll::new_commits(commits, last).len() - 1 - i],
{
    lemma_until_bounds(commits, last);
}

proof fn lemma_until_bounds(commits: Seq<CommitView>, sha: Seq<char>)
    ensures
        0 <= poll::until_sha(commits, sha) <= commits.len(),
        poll::until_sha(commits, sha) < commits.len() ==> commits[poll::until_sha(
            commits,
            sha,
        )].sha == sha,
        forall|k: int| 0 <= k < poll::until_sha(commits, sha) ==> (#[trigger] commits[k]).sha != sha,
    decreases commits.len(),
{
    if commits.len() > 0 && commits[0].sha != sha {
        let rest = commits.drop_first();
        lemma_until_bounds(rest, sha);
        assert forall|k: int| 0 <= k < poll::until_sha(commits, sha) implies (
        #[trigger] commits[k]).sha != sha by {
            if k > 0 {
                assert(rest[k - 1] == commits[k]);
            }
        }
    }
}

// ---------------------------------------------------------------------------
// What is said of commits
// ---------------------------------------------------------------------------

/// Where more than three commits came in, the announcement tells how many they are, and after
/// `Latest: ` the id and the headline of the newest of them, which is the first of the host's
/// answer and the one whose id is remembered.
pub proof fn law_latest_is_the_newest(
    sub: SubView,
    commits: Seq<CommitView>,
    last: Seq<char>,
    now: i64,
)
    requires
        sub.last_commit_sha == Some(last),
        poll::new_commits(commits, last).len() > 3,
    ensures
        ({
            let said = poll::commits_to_announce(sub, commits, true, now);
            let n = poll::new_commits(commits, last).len();
            &&& said is Some
            &&& holds(
                said->0,
                "Latest: "@ + shown_id(commits[0].sha) + " "@ + git_monitor::format::headline(
                    commits[0].message,
                ),
            )
            &&& holds(said->0, sub.full_slug + " · main · "@ + number::decimal(n) + " new commits"@)
            &&& poll::sha_to_keep(sub, commits) == Some(commits[0].sha)
        }),
{
    lemma_until_bounds(commits, last);
    let fresh = poll::new_commits(commits, last);
    assert(fresh.last() == commits[0]);
    law_summary_names_the_last(sub, fresh, now);
}

/// A summary of more than three commits, the oldest first, names the last of them and no other, and
/// how many there are.
pub proof fn law_summary_names_the_last(sub: SubView, commits: Seq<CommitView>, now: i64)
    requires
        commits.len() > 3,
    ensures
        holds(
            git_monitor::format::commits_text(sub, commits, now),
            "Latest: "@ + shown_id(commits[commits.len() - 1].sha) + " "@ + git_monitor::format::headline(
                commits[commits.len() - 1].message,
            ),
        ),
        holds(
            git_monitor::format::commits_text(sub, commits, now),
            sub.full_slug + " · main · "@ + number::decimal(commits.len()) + " new commits"@,
        ),
{
    let said = git_monitor::format::commits_text(sub, commits, now);
    let c = commits[commits.len() - 1];
    reveal_strlit(" new commits\nLatest: ");
    reveal_strlit(" new commits");
    reveal_strlit("\nLatest: ");
    reveal_strlit("Latest: ");
    assert(" new commits\nLatest: "@ =~= " new commits"@ + "\nLatest: "@);
    assert(" new commits\nLatest: "@ =~= (" new commits"@ + seq!['\n']) + "Latest: "@);
    let id = git_monitor::format::sha_shortened(c.sha);
    assert(id =~= shown_id(c.sha));
    let all = sub.host.url() + "/"@ + sub.full_slug + "/commits/"@ + "main"@;
    let part = "Latest: "@ + shown_id(c.sha) + " "@ + git_monitor::format::headline(c.message);
    let before = "📦 "@ + sub.full_slug + " · main · "@ + number::decimal(commits.len()) + (
    " new commits"@ + seq!['\n']);
    let behind = " ("@ + git_monitor::format::author_shortened(c.author) + ")\n"@ + all;
    assert((before + part) + behind =~= said);
    let part2 = sub.full_slug + " · main · "@ + number::decimal(commits.len()) + " new commits"@;
    let behind2 = "\nLatest: "@ + id + " "@ + git_monitor::format::headline(c.message) + " ("@
        + git_monitor::format::author_shortened(c.author) + ")\n"@ + all;
    assert(("📦 "@ + part2) + behind2 =~= said);
}

/// A list of two or three commits, the oldest first, has the id and the headline of each, an older
/// one before a newer one.
pub proof fn law_list_names_each(sub: SubView, commits: Seq<CommitView>, now: i64, i: int, j: int)
    requires
        2 <= commits.len() <= 3,
        0 <= i < j < commits.len(),
    ensures
        exists|a: Seq<char>, b: Seq<char>, c: Seq<char>|
            #[trigger] ((a + named_commit(commits[i]) + b + named_commit(commits[j])) + c)
                == git_monitor::format::commits_text(sub, commits, now),
{
    let nl = "\n"@;
    let head = "📦 "@ + sub.full_slug + " · main · "@ + number::decimal(commits.len())
        + " new commits"@;
    let url = sub.host.url() + "/"@ + sub.full_slug + "/commits/"@ + "main"@;
    let l0 = git_monitor::format::commit_line(commits[0]);
    let l1 = git_monitor::format::commit_line(commits[1]);
    let l2 = git_monitor::format::commit_line(commits[2]);
    lemma_list_text(sub, commits, now);
    if commits.len() == 2 {
        lemma_two_lines(head, nl, l0, l1, url);
        lemma_lines_embed(head + nl, commits[0], nl, commits[1], nl + url);
    } else {
        lemma_three_lines(head, nl, l0, l1, l2, url);
        if i == 0 && j == 1 {
            lemma_lines_embed(head + nl, commits[0], nl, commits[1], nl + l2 + nl + url);
        } else if i == 1 {
            lemma_lines_embed(head + nl + l0 + nl, commits[1], nl, commits[2], nl + url);
        } else {
            lemma_lines_embed(head + nl, commits[0], nl + l1 + nl, commits[2], nl + url);
        }
    }
}

/// A list of two or three commits tells how many they are.
pub proof fn law_list_tells_how_many(sub: SubView, commits: Seq<CommitView>, now: i64)
    requires
        2 <= commits.len() <= 3,
    ensures
        holds(
            git_monitor::format::commits_text(sub, commits, now),
            sub.full_slug + " · main · "@ + number::decimal(commits.len()) + " new commits\n"@,
        ),
{
    let nl = "\n"@;
    let head = "📦 "@ + sub.full_slug + " · main · "@ + number::decimal(commits.len())
        + " new commits"@;
    let url = sub.host.url() + "/"@ + sub.full_slug + "/commits/"@ + "main"@;
    let l0 = git_monitor::format::commit_line(commits[0]);
    let l1 = git_monitor::format::commit_line(commits[1]);
    let l2 = git_monitor::format::commit_line(commits[2]);
    lemma_list_text(sub, commits, now);
    if commits.len() == 2 {
        lemma_two_lines(head, nl, l0, l1, url);
        lemma_head_told(sub, commits, nl, l0 + nl + l1 + nl + url);
    } else {
        lemma_three_lines(head, nl, l0, l1, l2, url);
        lemma_head_told(sub, commits, nl, l0 + nl + l1 + nl + l2 + nl + url);
    }
}

proof fn lemma_head_told(sub: SubView, commits: Seq<CommitView>, nl: Seq<char>, rest: Seq<char>)
    requires
        nl == "\n"@,
    ensures
        holds(
            "📦 "@ + sub.full_slug + " · main · "@ + number::decimal(commits.len())
                + " new commits"@ + (nl + rest),
            sub.full_slug + " · main · "@ + number::decimal(commits.len()) + " new commits\n"@,
        ),
{
    reveal_strlit(" new commits\n");
    reveal_strlit(" new commits");
    reveal_strlit("\n");
    assert(" new commits\n"@ =~= " new commits"@ + nl);
    let part = sub.full_slug + " · main · "@ + number::decimal(commits.len()) + " new commits\n"@;
    assert(("📦 "@ + part) + rest =~= "📦 "@ + sub.full_slug + " · main · "@ + number::decimal(
        commits.len(),
    ) + " new commits"@ + (nl + rest));
}

proof fn lemma_list_text(sub: SubView, commits: Seq<CommitView>, now: i64)
    requires
        2 <= commits.len() <= 3,
    ensures
        ({
            let nl = "\n"@;
            let head = "📦 "@ + sub.full_slug + " · main · "@ + number::decimal(commits.len())
                + " new commits"@;
            let url = sub.host.url() + "/"@ + sub.full_slug + "/commits/"@ + "main"@;
            let l0 = git_monitor::format::commit_line(commits[0]);
            let l1 = git_monitor::format::commit_line(commits[1]);
            let l2 = git_monitor::format::commit_line(commits[2]);
            git_monitor::format::commits_text(sub, commits, now) == if commits.len() == 2 {
                head + nl + l0 + nl + l1 + nl + url
            } else {
                head + nl + l0 + nl + l1 + nl + l2 + nl + url
            }
        }),
{
    let nl = "\n"@;
    let n = commits.len() as int;
    let head = "📦 "@ + sub.full_slug + " · main · "@ + number::decimal(commits.len())
        + " new commits"@;
    let url = sub.host.url() + "/"@ + sub.full_slug + "/commits/"@ + "main"@;
    let l0 = git_monitor::format::commit_line(commits[0]);
    let l1 = git_monitor::format::commit_line(commits[1]);
    let l2 = git_monitor::format::commit_line(commits[2]);
    let lines = seq![head] + git_monitor::format::commit_lines(commits, n).push(url);
    reveal_with_fuel(git_monitor::format::commit_lines, 4);
    assert(seq![head].drop_last() =~= Seq::empty());
    assert(text::joined(seq![head], nl) == head);
    assert(seq![head, l0].drop_last() =~= seq![head]);
    assert(text::joined(seq![head, l0], nl) == head + nl + l0);
    assert(seq![head, l0, l1].drop_last() =~= seq![head, l0]);
    assert(text::joined(seq![head, l0, l1], nl) == head + nl + l0 + nl + l1);
    if n == 2 {
        assert(lines =~= seq![head, l0, l1, url]);
        assert(seq![head, l0, l1, url].drop_last() =~= seq![head, l0, l1]);
    } else {
        assert(seq![head, l0, l1, l2].drop_last() =~= seq![head, l0, l1]);
        assert(text::joined(seq![head, l0, l1, l2], nl) == head + nl + l0 + nl + l1 + nl + l2);
        assert(lines =~= seq![head, l0, l1, l2, url]);
        assert(seq![head, l0, l1, l2, url].drop_last() =~= seq![head, l0, l1, l2]);
    }
}

proof fn lemma_two_lines(
    head: Seq<char>,
    nl: Seq<char>,
    l0: Seq<char>,
    l1: Seq<char>,
    url: Seq<char>,
)
    ensures
        head + nl + l0 + nl + l1 + nl + url == (head + nl) + l0 + nl + l1 + (nl + url),
        head + nl + l0 + nl + l1 + nl + url == head + (nl + (l0 + nl + l1 + nl + url)),
{
    assert(head + nl + l0 + nl + l1 + nl + url =~= head + (nl + (l0 + nl + l1 + nl + url)));
    assert(head + nl + l0 + nl + l1 + nl + url =~= (head + nl) + l0 + nl + l1 + (nl + url));
}

proof fn lemma_three_lines(
    head: Seq<char>,
    nl: Seq<char>,
    l0: Seq<char>,
    l1: Seq<char>,
    l2: Seq<char>,
    url: Seq<char>,
)
    ensures
        ({
            let said = head + nl + l0 + nl + l1 + nl + l2 + nl + url;
            &&& said == (head + nl) + l0 + nl + l1 + (nl + l2 + nl + url)
            &&& said == (head + nl + l0 + nl) + l1 + nl + l2 + (nl + url)
            &&& said == (head + nl) + l0 + (nl + l1 + nl) + l2 + (nl + url)
            &&& said == head + (nl + (l0 + nl + l1 + nl + l2 + nl + url))
        }),
{
    let said = head + nl + l0 + nl + l1 + nl + l2 + nl + url;
    assert(said =~= (head + nl) + l0 + nl + l1 + (nl + l2 + nl + url));
    assert(said =~= (head + nl + l0 + nl) + l1 + nl + l2 + (nl + url));
    assert(said =~= (head + nl) + l0 + (nl + l1 + nl) + l2 + (nl + url));
    assert(said =~= head + (nl + (l0 + nl + l1 + nl + l2 + nl + url)));
}

proof fn lemma_lines_embed(
    x: Seq<char>,
    c: CommitView,
    mid: Seq<char>,
    d: CommitView,
    y: Seq<char>,
)
    ensures
        exists|a: Seq<char>, b: Seq<char>, e: Seq<char>|
            #[trigger] ((a + named_commit(c) + b + named_commit(d)) + e) == x
                + git_monitor::format::commit_line(c) + mid + git_monitor::format::commit_line(d)
                + y,
{
    lemma_line_names(c);
    lemma_line_names(d);
    let fix = "• "@;
    let tc = " — "@ + git_monitor::format::author_shortened(c.author);
    let td = " — "@ + git_monitor::format::author_shortened(d.author);
    assert(((x + fix) + named_commit(c) + (tc + mid + fix) + named_commit(d)) + (td + y) =~= x
        + git_monitor::format::commit_line(c) + mid + git_monitor::format::commit_line(d) + y);
}

/// What a commit is known by: its id as it is shown, and its headline.
pub open spec fn named_commit(c: CommitView) -> Seq<char> {
    shown_id(c.sha) + " "@ + git_monitor::format::headline(c.message)
}

proof fn lemma_line_names(c: CommitView)
    ensures
        git_monitor::format::commit_line(c) == "• "@ + named_commit(c) + (" — "@ + git_monitor::format::author_shortened(
            c.author,
        )),
{
    assert(git_monitor::format::sha_shortened(c.sha) =~= shown_id(c.sha));
    assert(git_monitor::format::commit_line(c) =~= "• "@ + named_commit(c) + (" — "@
        + git_monitor::format::author_shortened(c.author)));
}

/// One commit is told with its id and headline, its author, and where it is to be seen, by its whole
/// id.
pub proof fn law_one_commit_is_told(sub: SubView, c: CommitView, now: i64)
    ensures
        ({
            let said = git_monitor::format::commits_text(sub, seq![c], now);
            &&& holds(said, sub.full_slug + " · main\n"@ + named_commit(c) + "\n"@)
            &&& holds(said, "\n"@ + git_monitor::format::author_shortened(c.author) + " · "@)
            &&& (sub.host.url() + "/"@ + sub.full_slug + "/commit/"@ + c.sha).is_suffix_of(said)
        }),
{
    let said = git_monitor::format::commits_text(sub, seq![c], now);
    assert(git_monitor::format::sha_shortened(c.sha) =~= shown_id(c.sha));
    let url = sub.host.url() + "/"@ + sub.full_slug + "/commit/"@ + c.sha;
    let by = git_monitor::format::author_shortened(c.author);
    let age = git_monitor::format::age_text(c.authored_at, now);
    let part = sub.full_slug + " · main\n"@ + named_commit(c) + "\n"@;
    assert(("📦 "@ + part) + (by + " · "@ + age + "\n"@ + url) =~= said);
    let part2 = "\n"@ + by + " · "@;
    let before2 = "📦 "@ + sub.full_slug + " · main\n"@ + named_commit(c);
    assert((before2 + part2) + (age + "\n"@ + url) =~= said);
    assert(said.subrange(said.len() - url.len(), said.len() as int) =~= url);
}

/// The announcement of several commits ends with where all of them are to be seen.
pub proof fn law_several_commits_link_to_all(sub: SubView, commits: Seq<CommitView>, now: i64)
    requires
        commits.len() > 1,
    ensures
        (sub.host.url() + "/"@ + sub.full_slug + "/commits/"@ + "main"@).is_suffix_of(
            git_monitor::format::commits_text(sub, commits, now),
        ),
{
    let said = git_monitor::format::commits_text(sub, commits, now);
    let url = sub.host.url() + "/"@ + sub.full_slug + "/commits/"@ + "main"@;
    if commits.len() <= 3 {
        let head = "📦 "@ + sub.full_slug + " · main · "@ + number::decimal(commits.len())
            + " new commits"@;
        let lines = seq![head] + git_monitor::format::commit_lines(commits, commits.len() as int).push(url);
        lemma_lines_len(commits, commits.len() as int);
        assert(lines.last() == url);
        assert(said == text::joined(lines.drop_last(), "\n"@) + "\n"@ + url);
    }
    assert(said.subrange(said.len() - url.len(), said.len() as int) =~= url);
}

proof fn lemma_lines_len(commits: Seq<CommitView>, n: int)
    requires
        n >= 0,
    ensures
        git_monitor::format::commit_lines(commits, n).len() == n,
    decreases n,
{
    if n > 0 {
        lemma_lines_len(commits, n - 1);
    }
}

/// The headline of a commit is its message up to the end of the first line.
pub proof fn law_headline_is_the_first_line(first: Seq<char>, more: Seq<char>)
    requires
        first.len() > 0,
        !first.contains('\n'),
        first.last() != '\r',
    ensures
        git_monitor::format::headline(first) == first,
        git_monitor::format::headline(first.push('\n') + more) == first,
        git_monitor::format::headline(first.push('\r').push('\n') + more) == first,
{
    text::lemma_one_piece(first, '\n');
    assert(text::text_lines(first)[0] == text::without_cr(first));
    lemma_first_line(first, more);
    let returned = first.push('\r');
    assert(!returned.contains('\n')) by {
        if returned.contains('\n') {
            let k = choose|k: int| 0 <= k < returned.len() && returned[k] == '\n';
            assert(first[k] == '\n');
        }
    }
    lemma_first_line(returned, more);
    assert(returned.drop_last() =~= first);
}

proof fn lemma_first_line(line: Seq<char>, more: Seq<char>)
    requires
        line.len() > 0,
        !line.contains('\n'),
    ensures
        git_monitor::format::headline(line.push('\n') + more) == text::without_cr(line),
{
    let whole = line.push('\n') + more;
    let tail = seq!['\n'] + more;
    assert(whole =~= line + tail);
    text::lemma_one_piece(line, '\n');
    text::lemma_pieces_before(line, tail, '\n');
    let all = text::pieces(whole, '\n');
    assert(all.take(1)[0] == all[0]);
    let kept = if all.last().len() == 0 {
        all.drop_last()
    } else {
        all
    };
    assert(kept.len() > 0 && kept[0] == line);
    assert(text::text_lines(whole)[0] == text::without_cr(line));
}

// ---------------------------------------------------------------------------
// Releases
// ---------------------------------------------------------------------------

/// A release is new where another one was known before; the first look at a repository is silent.
pub proof fn law_when_releases_are_new(sub: SubView, release: ReleaseView)
    ensures
        poll::release_is_new(sub, release) <==> sub.last_release_tag is Some
            && sub.last_release_tag->0 != release.tag,
{
}

/// A release is announced with its repository, its tag and where it is to be seen, and with its
/// name where that is not the tag.
pub proof fn law_release_is_told(sub: SubView, r: ReleaseView)
    ensures
        ({
            let said = git_monitor::format::release_text(sub, r);
            &&& holds(said, sub.full_slug + " · "@ + r.tag + "\n"@)
            &&& r.html_url.len() > 0 ==> r.html_url.is_suffix_of(said)
            &&& r.html_url.len() == 0 ==> (sub.host.url() + "/"@ + sub.full_slug + "/releases/tag/"@
                + r.tag).is_suffix_of(said)
            &&& r.name is Some && r.name->0.len() > 0 && r.name->0 != r.tag ==> holds(
                said,
                "\""@ + r.name->0 + "\"\n"@,
            )
            &&& r.body is Some && text::trimmed(r.body->0).len() > 0 && text::byte_len(
                text::trimmed(r.body->0),
            ) <= 200 ==> holds(said, text::trimmed(r.body->0) + "\n"@)
        }),
{
    let said = git_monitor::format::release_text(sub, r);
    let title = git_monitor::format::release_title(r);
    let notes = git_monitor::format::release_notes(r);
    let body = title + notes;
    let url = if r.html_url.len() == 0 {
        sub.host.url() + "/"@ + sub.full_slug + "/releases/tag/"@ + r.tag
    } else {
        r.html_url
    };
    let part = sub.full_slug + " · "@ + r.tag + "\n"@;
    let behind = if body.len() == 0 {
        url
    } else {
        body + "\n"@ + url
    };
    assert(("🚀 "@ + part) + behind =~= said);
    assert(said.subrange(said.len() - url.len(), said.len() as int) =~= url);
    if r.name is Some && r.name->0.len() > 0 && r.name->0 != r.tag {
        assert(title.len() > 0);
        assert((("🚀 "@ + part) + title) + (notes + "\n"@ + url) =~= said);
    }
    if r.body is Some && text::trimmed(r.body->0).len() > 0 && text::byte_len(
        text::trimmed(r.body->0),
    ) <= 200 {
        let t = text::trimmed(r.body->0);
        assert((("🚀 "@ + part + title) + (t + "\n"@)) + url =~= said);
    }
}

// ---------------------------------------------------------------------------
// What is remembered
// ---------------------------------------------------------------------------

/// A look at a subscription changes what is remembered of that one alone: its time, and the id and
/// the tag where they are given.
pub proof fn law_look_is_remembered(
    rows: Seq<SubView>,
    id: i64,
    sha: Option<Seq<char>>,
    tag: Option<Seq<char>>,
    now: i64,
    i: int,
)
    requires
        0 <= i < rows.len(),
    ensures
        ({
            let after = store::rows_polled(rows, id, sha, tag, now);
            &&& after.len() == rows.len()
            &&& rows[i].id != id ==> after[i] == rows[i]
            &&& rows[i].id == id ==> {
                &&& after[i].last_poll_at == Some(now)
                &&& sha is Some ==> after[i].last_commit_sha == sha
                &&& sha is None ==> after[i].last_commit_sha == rows[i].last_commit_sha
                &&& tag is Some ==> after[i].last_release_tag == tag
                &&& tag is None ==> after[i].last_release_tag == rows[i].last_release_tag
                &&& after[i].id == id && after[i].channel_id == rows[i].channel_id && after[i].host
                    == rows[i].host && after[i].owner == rows[i].owner && after[i].repo
                    == rows[i].repo && after[i].full_slug == rows[i].full_slug
            }
        }),
{
}

/// After a look at the releases of a subscription, the tag that was seen is remembered, or the one
/// before where none was; its commits are left as they were.
pub proof fn law_release_is_remembered(
    rows: Seq<SubView>,
    sub: SubView,
    release: Option<ReleaseView>,
    now: i64,
    i: int,
)
    requires
        0 <= i < rows.len(),
    ensures
        ({
            let after = poll::release_recorded(rows, sub, release, now);
            &&& after.len() == rows.len()
            &&& rows[i].id != sub.id ==> after[i] == rows[i]
            &&& rows[i].id == sub.id ==> {
                &&& after[i].last_poll_at == Some(now)
                &&& after[i].last_commit_sha == rows[i].last_commit_sha
                &&& release is None ==> after[i].last_release_tag == rows[i].last_release_tag
                &&& release is Some && rows[i].last_release_tag == sub.last_release_tag
                    ==> after[i].last_release_tag == Some(release->0.tag)
            }
        }),
{
}

/// The subscriptions of a channel are listed the oldest first, each of them once.
pub proof fn law_listed_by_age(list: Seq<SubView>, rows: Seq<SubView>)
    requires
        store::by_age(list, rows),
        rows.len() <= usize::MAX,
    ensures
        list.len() == rows.len(),
        forall|i: int, j: int|
            0 <= i < j < list.len() ==> (#[trigger] list[i]).added_at <= (#[trigger] list[j]).added_at,
        forall|s: SubView| #[trigger] rows.contains(s) ==> list.contains(s),
        forall|s: SubView| #[trigger] list.contains(s) ==> rows.contains(s),
{
    let keys = store::added_times(rows);
    let how = choose|how: Seq<usize>| #[trigger]
        order::sorts(how, keys, true) && list.len() == rows.len() && forall|k: int|
            0 <= k < list.len() ==> #[trigger] list[k] == rows[how[k] as int];
    assert forall|i: int, j: int| 0 <= i < j < list.len() implies (#[trigger] list[i]).added_at <= (
    #[trigger] list[j]).added_at by {
        assert(order::precedes(keys, true, how[i] as int, how[j] as int));
    }
    assert forall|s: SubView| #[trigger] rows.contains(s) implies list.contains(s) by {
        let k = choose|k: int| 0 <= k < rows.len() && rows[k] == s;
        assert(keys.len() == rows.len());
        assert(how.contains(k as usize));
        let i = choose|i: int| 0 <= i < how.len() && how[i] == k as usize;
        assert(list[i] == s);
    }
}

/// Removing by number or by repository takes what is named and nothing else, and keeps the order.
pub proof fn law_removal_takes_what_is_named(
    rows: Seq<SubView>,
    id: i64,
    channel: Seq<char>,
    host: store::RepoHost,
    owner: Seq<char>,
    repo: Seq<char>,
)
    ensures
        store::without_id(rows, id) == rows.filter(|s: SubView| s.id != id),
        store::without_repo(rows, channel, host, owner, repo) == rows.filter(
            |s: SubView|
                !(s.channel_id == channel && s.host == host && s.owner == owner && s.repo == repo),
        ),
        store::of_channel(rows, channel) == rows.filter(|s: SubView| s.channel_id == channel),
{
    lemma_removal(
        rows,
        id,
        channel,
        host,
        owner,
        repo,
        |s: SubView| s.id != id,
        |s: SubView|
            !(s.channel_id == channel && s.host == host && s.owner == owner && s.repo == repo),
        |s: SubView| s.channel_id == channel,
    );
}

proof fn lemma_removal(
    rows: Seq<SubView>,
    id: i64,
    channel: Seq<char>,
    host: store::RepoHost,
    owner: Seq<char>,
    repo: Seq<char>,
    p: spec_fn(SubView) -> bool,
    q: spec_fn(SubView) -> bool,
    r: spec_fn(SubView) -> bool,
)
    requires
        forall|s: SubView| #[trigger] p(s) <==> s.id != id,
        forall|s: SubView| #[trigger]
            q(s) <==> !(s.channel_id == channel && s.host == host && s.owner == owner && s.repo
                == repo),
        forall|s: SubView| #[trigger] r(s) <==> s.channel_id == channel,
    ensures
        store::without_id(rows, id) == rows.filter(p),
        store::without_repo(rows, channel, host, owner, repo) == rows.filter(q),
        store::of_channel(rows, channel) == rows.filter(r),
    decreases rows.len(),
{
    reveal(Seq::filter);
    if rows.len() > 0 {
        lemma_removal(rows.drop_last(), id, channel, host, owner, repo, p, q, r);
    }
}

/// A round of looks ends early where fewer than five requests are left.
pub proof fn law_few_requests_end_a_round(remaining: i64)
    ensures
        poll::exhausted(remaining) <==> remaining <= 4,
        poll::exhausted(remaining) ==> github::remaining_known(remaining) == Some(remaining),
{
}

// ---------------------------------------------------------------------------
// Answers of the hosts
// ---------------------------------------------------------------------------

/// Every commit of an answer is read, in its order, with its id, its message and its author's name.
pub proof fn law_commits_are_read(items: Seq<JsonView>, i: int)
    requires
        0 <= i < items.len(),
    ensures
        ({
            let c = items[i];
            let hub = github::commits_of(JsonView::Array(items));
            let lab = gitlab::commits_of(JsonView::Array(items));
            &&& hub.len() == items.len() && lab.len() == items.len()
            &&& forall|s: Seq<char>| c.at("sha"@) == JsonView::Text(s) ==> hub[i].sha == s
            &&& forall|s: Seq<char>|
                c.at("commit"@).at("message"@) == JsonView::Text(s) ==> hub[i].message == s
            &&& forall|s: Seq<char>|
                c.at("commit"@).at("author"@).at("name"@) == JsonView::Text(s) ==> hub[i].author == s
            &&& forall|s: Seq<char>|
                !(c.at("commit"@).at("author"@).at("name"@) is Text) && c.at("author"@).at("login"@)
                    == JsonView::Text(s) ==> hub[i].author == s
            &&& forall|s: Seq<char>| c.at("id"@) == JsonView::Text(s) ==> lab[i].sha == s
            &&& forall|s: Seq<char>| c.at("message"@) == JsonView::Text(s) ==> lab[i].message == s
            &&& forall|s: Seq<char>| c.at("author_name"@) == JsonView::Text(s) ==> lab[i].author == s
        }),
{
}

/// The release of an answer is read with its tag; one without a tag is none. A tag alone is told as
/// a release of the repository that has it.
pub proof fn law_release_is_read(
    data: JsonView,
    tag: Seq<char>,
    host: Seq<char>,
    owner: Seq<char>,
    repo: Seq<char>,
)
    ensures
        data.at("tag_name"@) == JsonView::Text(tag) ==> github::release_of(data) is Some
            && github::release_of(data)->0.tag == tag,
        !(data.at("tag_name"@) is Text) ==> github::release_of(data) is None,
        data.nth(0).at("name"@) == JsonView::Text(tag) && tag.len() > 0 ==> github::tag_release_of(
            data,
            owner,
            repo,
        ) is Some && github::tag_release_of(data, owner, repo)->0.tag == tag && (owner + "/"@ + repo
            + "/releases/tag/"@ + tag).is_suffix_of(
            github::tag_release_of(data, owner, repo)->0.html_url,
        ),
        data.nth(0).at("tag_name"@) == JsonView::Text(tag) && tag.len() > 0 ==> gitlab::release_of(
            data,
            host,
            owner,
            repo,
        ) is Some && gitlab::release_of(data, host, owner, repo)->0.tag == tag && gitlab::release_of(
            data,
            host,
            owner,
            repo,
        )->0.html_url == host + "/"@ + owner + "/"@ + repo + "/-/releases/"@ + tag,
{
    let hub = "https://github.com/"@ + owner + "/"@ + repo + "/releases/tag/"@ + tag;
    let path = owner + "/"@ + repo + "/releases/tag/"@ + tag;
    assert(hub.subrange(hub.len() - path.len(), hub.len() as int) =~= path);
}

} // verus!
