//! One look at the subscriptions: what counts as new, what is announced and what is remembered.

use vstd::prelude::*;
use crate::git_monitor::format::{CommitInfo, CommitView, ReleaseInfo, ReleaseView};
use crate::git_monitor::github::RateLimit;
use crate::git_monitor::store::{SubView, Subscription, SubscriptionStore};
use crate::{git_monitor, text};

verus! {

/// How many commits precede the one with id `sha`; all where it is not among them.
pub open spec fn until_sha(commits: Seq<CommitView>, sha: Seq<char>) -> int
    decreases commits.len(),
{
    if commits.len() == 0 || commits[0].sha == sha {
        0
    } else {
        1 + until_sha(commits.drop_first(), sha)
    }
}

/// The commits that came after the last known one, the oldest first. `commits` has the newest
/// first.
pub open spec fn new_commits(commits: Seq<CommitView>, last: Seq<char>) -> Seq<CommitView> {
    commits.take(until_sha(commits, last)).reverse()
}

/// The id to remember after commits came in. The first look only sets it.
pub open spec fn sha_to_keep(sub: SubView, commits: Seq<CommitView>) -> Option<Seq<char>> {
    if commits.len() == 0 {
        None
    } else {
        match sub.last_commit_sha {
            None => Some(commits[0].sha),
            Some(last) => if until_sha(commits, last) > 0 {
                Some(commits[0].sha)
            } else {
                None
            },
        }
    }
}

/// What to announce after commits came in. The first look announces nothing.
pub open spec fn commits_to_announce(
    sub: SubView,
    commits: Seq<CommitView>,
    post: bool,
    now: i64,
) -> Option<Seq<char>> {
    match sub.last_commit_sha {
        None => None,
        Some(last) => {
            let fresh = new_commits(commits, last);
            if post && fresh.len() > 0 {
                Some(git_monitor::format::commits_text(sub, fresh, now))
            } else {
                None
            }
        },
    }
}

/// Whether a release differs from the last known one. On the first look none does.
pub open spec fn release_is_new(sub: SubView, release: ReleaseView) -> bool {
    sub.last_release_tag is Some && sub.last_release_tag != Some(release.tag)
}

/// The rows after a release was seen: its tag is remembered unless it was known.
pub open spec fn release_recorded(
    rows: Seq<SubView>,
    sub: SubView,
    release: Option<ReleaseView>,
    now: i64,
) -> Seq<SubView> {
    let seen = match release {
        Some(r) => if sub.last_release_tag == Some(r.tag) {
            rows
        } else {
            git_monitor::store::rows_polled(rows, sub.id, None, Some(r.tag), now)
        },
        None => rows,
    };
    git_monitor::store::rows_polled(seen, sub.id, None, None, now)
}

proof fn lemma_until(commits: Seq<CommitView>, sha: Seq<char>, i: int)
    requires
        0 <= i <= commits.len(),
        forall|k: int| 0 <= k < i ==> (#[trigger] commits[k]).sha != sha,
        i == commits.len() || commits[i].sha == sha,
    ensures
        until_sha(commits, sha) == i,
    decreases commits.len(),
{
    if commits.len() > 0 && commits[0].sha != sha {
        let rest = commits.drop_first();
        assert forall|k: int| 0 <= k < i - 1 implies (#[trigger] rest[k]).sha != sha by {
            assert(rest[k] == commits[k + 1]);
        }
        lemma_until(rest, sha, i - 1);
    }
}

/// The commits that came after the last known one, the oldest first.
pub fn commits_since(commits: &Vec<CommitInfo>, last: &str) -> (r: Vec<CommitInfo>)
    ensures
        git_monitor::format::commit_views(r@) == new_commits(
            git_monitor::format::commit_views(commits@),
            last@,
        ),
{
    let ghost all = git_monitor::format::commit_views(commits@);
    let mut n: usize = 0;
    while n < commits.len() && !text::same(commits[n].sha.as_str(), last)
        invariant
            n <= commits.len(),
            all == git_monitor::format::commit_views(commits@),
            forall|k: int| 0 <= k < n ==> (#[trigger] all[k]).sha != last@,
        decreases commits.len() - n,
    {
        proof {
            assert(all[n as int] == commits@[n as int]@);
        }
        n = n + 1;
    }
    proof {
        if n < commits.len() {
            assert(all[n as int] == commits@[n as int]@);
        }
        lemma_until(all, last@, n as int);
    }
    let mut out: Vec<CommitInfo> = Vec::new();
    let mut i: usize = n;
    while i > 0
        invariant
            i <= n <= commits.len(),
            all == git_monitor::format::commit_views(commits@),
            out.len() == n - i,
            forall|k: int| 0 <= k < n - i ==> (#[trigger] out@[k])@ == all[n - 1 - k],
        decreases i,
    {
        i = i - 1;
        out.push(commits[i].copy());
    }
    proof {
        let fresh = all.take(n as int).reverse();
        assert(git_monitor::format::commit_views(out@) =~= fresh);
    }
    out
}

/// Takes commits, the newest first, into account. Returns what to announce; the newest id is
/// remembered.
pub fn commits_arrived(
    store: &mut SubscriptionStore,
    sub: &Subscription,
    commits: &Vec<CommitInfo>,
    post_commits: bool,
    now: i64,
) -> (r: Option<String>)
    ensures
        text::opt_view(r) == commits_to_announce(
            sub@,
            git_monitor::format::commit_views(commits@),
            post_commits,
            now,
        ),
        final(store)@ == match sha_to_keep(sub@, git_monitor::format::commit_views(commits@)) {
            Some(sha) => git_monitor::store::rows_polled(old(store)@, sub.id, Some(sha), None, now),
            None => old(store)@,
        },
        final(store).numbers_used() == old(store).numbers_used(),
{
    let ghost all = git_monitor::format::commit_views(commits@);
    match &sub.last_commit_sha {
        None => {
            if commits.len() > 0 {
                proof {
                    assert(all[0] == commits@[0]@);
                }
                store.set_last_commit_sha(sub.id, commits[0].sha.as_str(), now);
            }
            None
        },
        Some(last) => {
            let fresh = commits_since(commits, last.as_str());
            let ghost views = git_monitor::format::commit_views(fresh@);
            proof {
                lemma_until_bounds(all, last@);
                assert(views.len() == until_sha(all, last@));
            }
            if fresh.len() == 0 {
                return None;
            }
            let message = if post_commits {
                Some(git_monitor::format::format_commits(sub, &fresh, now))
            } else {
                None
            };
            proof {
                assert(all[0] == commits@[0]@);
            }
            store.set_last_commit_sha(sub.id, commits[0].sha.as_str(), now);
            message
        },
    }
}

proof fn lemma_until_bounds(commits: Seq<CommitView>, sha: Seq<char>)
    ensures
        0 <= until_sha(commits, sha) <= commits.len(),
        until_sha(commits, sha) < commits.len() ==> commits[until_sha(commits, sha)].sha == sha,
        forall|k: int| 0 <= k < until_sha(commits, sha) ==> (#[trigger] commits[k]).sha != sha,
    decreases commits.len(),
{
    if commits.len() > 0 && commits[0].sha != sha {
        let rest = commits.drop_first();
        lemma_until_bounds(rest, sha);
        assert forall|k: int| 0 <= k < until_sha(commits, sha) implies (#[trigger] commits[k]).sha
            != sha by {
            if k > 0 {
                assert(rest[k - 1] == commits[k]);
            }
        }
    }
}

/// Takes the latest release into account and ends the look at the subscription. Returns what to
/// announce; a tag that was not known is remembered.
pub fn release_arrived(
    store: &mut SubscriptionStore,
    sub: &Subscription,
    release: Option<&ReleaseInfo>,
    now: i64,
) -> (r: Option<String>)
    ensures
        text::opt_view(r) == match release {
            Some(rel) => if release_is_new(sub@, rel@) && git_monitor::format::notes_cuttable(
                rel@,
            ) {
                Some(git_monitor::format::release_text(sub@, rel@))
            } else {
                None
            },
            None => None,
        },
        final(store)@ == release_recorded(
            old(store)@,
            sub@,
            match release {
                Some(rel) => Some(rel@),
                None => None,
            },
            now,
        ),
        final(store).numbers_used() == old(store).numbers_used(),
{
    let mut message: Option<String> = None;
    if let Some(rel) = release {
        match &sub.last_release_tag {
            None => {
                store.set_last_release_tag(sub.id, rel.tag.as_str(), now);
            },
            Some(prev) => {
                if !text::same(prev.as_str(), rel.tag.as_str()) {
                    message = git_monitor::format::announce_release(sub, rel);
                    store.set_last_release_tag(sub.id, rel.tag.as_str(), now);
                }
            },
        }
    }
    store.touch_poll(sub.id, now);
    message
}

/// The access token: a nonempty one from the environment, else a nonempty configured one.
pub fn resolve_token(env: Option<&str>, configured: &str) -> (r: Option<String>)
    ensures
        text::opt_view(r) == match env {
            Some(e) if e@.len() > 0 => Some(e@),
            _ => if configured@.len() > 0 {
                Some(configured@)
            } else {
                None
            },
        },
{
    if let Some(e) = env {
        if !e.is_empty() {
            return Some(e.to_owned());
        }
    }
    if configured.is_empty() {
        None
    } else {
        Some(configured.to_owned())
    }
}

/// Whether GitHub said that fewer than five requests are left.
pub open spec fn exhausted(remaining: i64) -> bool {
    remaining < 5
}

/// The subscription to look at after `done` of `total`: the next one, unless a look has been taken
/// and GitHub's requests are nearly used up.
pub fn next_poll(done: usize, total: usize, limit: &RateLimit) -> (r: Option<usize>)
    ensures
        r == if done < total && (done == 0 || !exhausted(limit@)) {
            Some(done)
        } else {
            None
        },
{
    if done >= total {
        return None;
    }
    if done > 0 {
        if let Some(left) = git_monitor::github::last_rate_limit_remaining(limit) {
            if left < 5 {
                return None;
            }
        }
    }
    Some(done)
}

/// Every new commit is announced once: right after commits were taken into account, the same
/// commits hold nothing new.
pub proof fn law_commits_announced_once(sub: SubView, commits: Seq<CommitView>)
    requires
        sha_to_keep(sub, commits) is Some,
    ensures
        new_commits(commits, sha_to_keep(sub, commits)->0).len() == 0,
{
}

/// What is new stops at the last known commit: none of the new commits is the known one, and
/// where the known one is listed, exactly those listed before it are new.
pub proof fn law_new_commits_stop_at_known(commits: Seq<CommitView>, last: Seq<char>, k: int)
    requires
        0 <= k < commits.len(),
        commits[k].sha == last,
        forall|j: int| 0 <= j < k ==> (#[trigger] commits[j]).sha != last,
    ensures
        new_commits(commits, last) == commits.take(k).reverse(),
{
    lemma_until(commits, last, k);
}

/// A release is announced once: when its tag has been remembered it is no longer new.
pub proof fn law_release_announced_once(sub: SubView, release: ReleaseView, now: i64)
    ensures
        !release_is_new(
            git_monitor::store::polled(sub, None, Some(release.tag), now),
            release,
        ),
{
}

} // verus!
