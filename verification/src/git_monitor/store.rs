//! Which channel follows which repository.
//!
//! Times are Unix seconds.

use vstd::prelude::*;
use crate::{order, text};

verus! {

/// The host of a repository.
#[derive(Debug, Clone, Copy, PartialEq, Eq, Hash, Structural)]
pub enum RepoHost {
    GitHub,
    GitLab,
}

impl RepoHost {
    /// The stored name of a host.
    pub open spec fn name(self) -> Seq<char> {
        match self {
            RepoHost::GitHub => "github"@,
            RepoHost::GitLab => "gitlab"@,
        }
    }

    /// Where a host's repositories are.
    pub open spec fn url(self) -> Seq<char> {
        match self {
            RepoHost::GitHub => "https://github.com"@,
            RepoHost::GitLab => "https://gitlab.com"@,
        }
    }

    /// The host of a name in any case.
    pub open spec fn named(name: Seq<char>) -> Option<RepoHost> {
        if text::str_lowercase(name) == "github"@ {
            Some(RepoHost::GitHub)
        } else if text::str_lowercase(name) == "gitlab"@ {
            Some(RepoHost::GitLab)
        } else {
            None
        }
    }

    /// The stored name.
    pub fn as_str(&self) -> (r: &'static str)
        ensures
            r@ == self.name(),
    {
        match self {
            RepoHost::GitHub => "github",
            RepoHost::GitLab => "gitlab",
        }
    }

    /// The host of a name in any case. A stored name is read back as its host.
    pub fn from_str(s: &str) -> (r: Option<Self>)
        ensures
            r == RepoHost::named(s@),
            forall|host: RepoHost| s@ == #[trigger] host.name() ==> r == Some(host),
    {
        let lower = text::to_lowercase(s);
        proof {
            reveal_strlit("github");
            reveal_strlit("gitlab");
            assert("github"@[3] == 'h' && "gitlab"@[3] == 'l');
            if s@ == "github"@ || s@ == "gitlab"@ {
                assert(text::ascii_only(s@));
                assert(lower@ =~= s@);
            }
        }
        if text::same(lower.as_str(), "github") {
            Some(RepoHost::GitHub)
        } else if text::same(lower.as_str(), "gitlab") {
            Some(RepoHost::GitLab)
        } else {
            None
        }
    }

    /// Where the host's repositories are.
    pub fn base_url(&self) -> (r: &'static str)
        ensures
            r@ == self.url(),
    {
        match self {
            RepoHost::GitHub => "https://github.com",
            RepoHost::GitLab => "https://gitlab.com",
        }
    }
}

/// A host is found again by its stored name, and has one.
pub proof fn law_host_name_reads_back(host: RepoHost, other: RepoHost)
    ensures
        RepoHost::named(host.name()) == Some(host),
        host.name() == other.name() ==> host == other,
{
    reveal_strlit("github");
    reveal_strlit("gitlab");
    assert("github"@[3] == 'h' && "gitlab"@[3] == 'l');
    let lower = text::str_lowercase(host.name());
    assert(text::ascii_only(host.name()));
    assert(lower =~= host.name());
}

/// The case of a name in ASCII, or of one that names a host, does not matter.
pub proof fn law_host_name_in_any_case(name: Seq<char>)
    requires
        text::ascii_only(name) || RepoHost::named(name) is Some,
    ensures
        RepoHost::named(text::str_lowercase(name)) == RepoHost::named(name),
        RepoHost::named(name) is Some ==> text::str_lowercase(name) == RepoHost::named(
            name,
        )->0.name(),
{
    let lower = text::str_lowercase(name);
    law_host_name_reads_back(RepoHost::GitHub, RepoHost::GitLab);
    law_host_name_reads_back(RepoHost::GitLab, RepoHost::GitHub);
    if RepoHost::named(name) is None {
        assert(text::ascii_only(lower));
        assert(text::str_lowercase(lower) =~= lower);
    }
}

/// One channel following one repository.
pub struct Subscription {
    pub id: i64,
    pub channel_id: String,
    pub host: RepoHost,
    pub owner: String,
    pub repo: String,
    pub full_slug: String,
    pub added_by: String,
    pub added_at: i64,
    pub last_commit_sha: Option<String>,
    pub last_release_tag: Option<String>,
    pub last_poll_at: Option<i64>,
}

/// What a subscription says.
#[verifier::ext_equal]
pub struct SubView {
    pub id: i64,
    pub channel_id: Seq<char>,
    pub host: RepoHost,
    pub owner: Seq<char>,
    pub repo: Seq<char>,
    pub full_slug: Seq<char>,
    pub added_by: Seq<char>,
    pub added_at: i64,
    pub last_commit_sha: Option<Seq<char>>,
    pub last_release_tag: Option<Seq<char>>,
    pub last_poll_at: Option<i64>,
}

impl View for Subscription {
    type V = SubView;

    open spec fn view(&self) -> SubView {
        SubView {
            id: self.id,
            channel_id: self.channel_id@,
            host: self.host,
            owner: self.owner@,
            repo: self.repo@,
            full_slug: self.full_slug@,
            added_by: self.added_by@,
            added_at: self.added_at,
            last_commit_sha: text::opt_view(self.last_commit_sha),
            last_release_tag: text::opt_view(self.last_release_tag),
            last_poll_at: self.last_poll_at,
        }
    }
}

impl Subscription {
    /// A copy.
    pub fn copy(&self) -> (r: Subscription)
        ensures
            r@ == self@,
    {
        Subscription {
            id: self.id,
            channel_id: self.channel_id.clone(),
            host: self.host,
            owner: self.owner.clone(),
            repo: self.repo.clone(),
            full_slug: self.full_slug.clone(),
            added_by: self.added_by.clone(),
            added_at: self.added_at,
            last_commit_sha: text::copy_opt(&self.last_commit_sha),
            last_release_tag: text::copy_opt(&self.last_release_tag),
            last_poll_at: self.last_poll_at,
        }
    }
}

/// The views of subscriptions.
pub open spec fn sub_views(rows: Seq<Subscription>) -> Seq<SubView> {
    rows.map_values(|s: Subscription| s@)
}

/// Why a subscription was not added. Nothing is changed then.
#[derive(Debug, Clone, Copy, PartialEq, Eq, Structural)]
pub enum AddError {
    /// The channel follows the repository already.
    Exists,
    /// There is no number left for it.
    Full,
}

impl AddError {
    /// What the error says.
    pub open spec fn message(self) -> Seq<char> {
        match self {
            AddError::Exists => "UNIQUE constraint failed: subscriptions.channel_id, subscriptions.host, subscriptions.owner, subscriptions.repo"@,
            AddError::Full => "database or disk is full"@,
        }
    }

    /// The error as text.
    pub fn to_text(&self) -> (r: String)
        ensures
            r@ == self.message(),
    {
        match self {
            AddError::Exists => "UNIQUE constraint failed: subscriptions.channel_id, subscriptions.host, subscriptions.owner, subscriptions.repo".to_owned(),
            AddError::Full => "database or disk is full".to_owned(),
        }
    }
}

/// Whether a row is the subscription of a channel to a repository.
pub open spec fn same_repo(
    s: SubView,
    channel: Seq<char>,
    host: RepoHost,
    owner: Seq<char>,
    repo: Seq<char>,
) -> bool {
    s.channel_id == channel && s.host == host && s.owner == owner && s.repo == repo
}

/// Whether some row is the subscription of a channel to a repository.
pub open spec fn follows(
    rows: Seq<SubView>,
    channel: Seq<char>,
    host: RepoHost,
    owner: Seq<char>,
    repo: Seq<char>,
) -> bool {
    exists|i: int| 0 <= i < rows.len() && same_repo(#[trigger] rows[i], channel, host, owner, repo)
}

/// The rows of one channel.
pub open spec fn of_channel(rows: Seq<SubView>, channel: Seq<char>) -> Seq<SubView>
    decreases rows.len(),
{
    if rows.len() == 0 {
        rows
    } else if rows.last().channel_id == channel {
        of_channel(rows.drop_last(), channel).push(rows.last())
    } else {
        of_channel(rows.drop_last(), channel)
    }
}

/// The rows without that of a number.
pub open spec fn without_id(rows: Seq<SubView>, id: i64) -> Seq<SubView>
    decreases rows.len(),
{
    if rows.len() == 0 {
        rows
    } else if rows.last().id == id {
        without_id(rows.drop_last(), id)
    } else {
        without_id(rows.drop_last(), id).push(rows.last())
    }
}

/// The rows without the subscription of a channel to a repository.
pub open spec fn without_repo(
    rows: Seq<SubView>,
    channel: Seq<char>,
    host: RepoHost,
    owner: Seq<char>,
    repo: Seq<char>,
) -> Seq<SubView>
    decreases rows.len(),
{
    if rows.len() == 0 {
        rows
    } else if same_repo(rows.last(), channel, host, owner, repo) {
        without_repo(rows.drop_last(), channel, host, owner, repo)
    } else {
        without_repo(rows.drop_last(), channel, host, owner, repo).push(rows.last())
    }
}

/// When the rows were added.
pub open spec fn added_times(rows: Seq<SubView>) -> Seq<i128> {
    rows.map_values(|s: SubView| s.added_at as i128)
}

/// `list` is `rows` sorted by when they were added, earlier rows first among equals.
pub open spec fn by_age(list: Seq<SubView>, rows: Seq<SubView>) -> bool {
    exists|how: Seq<usize>| #[trigger]
        order::sorts(how, added_times(rows), true) && list.len() == rows.len() && forall|k: int|
            0 <= k < list.len() ==> #[trigger] list[k] == rows[how[k] as int]
}

/// A row after a poll that saw a commit, a release or nothing.
pub open spec fn polled(
    s: SubView,
    sha: Option<Seq<char>>,
    tag: Option<Seq<char>>,
    now: i64,
) -> SubView {
    SubView {
        last_commit_sha: if sha is Some {
            sha
        } else {
            s.last_commit_sha
        },
        last_release_tag: if tag is Some {
            tag
        } else {
            s.last_release_tag
        },
        last_poll_at: Some(now),
        ..s
    }
}

/// The rows with the row of a number changed by a poll.
pub open spec fn rows_polled(
    rows: Seq<SubView>,
    id: i64,
    sha: Option<Seq<char>>,
    tag: Option<Seq<char>>,
    now: i64,
) -> Seq<SubView> {
    rows.map_values(
        |s: SubView|
            if s.id == id {
                polled(s, sha, tag, now)
            } else {
                s
            },
    )
}

/// The subscriptions.
pub struct SubscriptionStore {
    rows: Vec<Subscription>,
    last_id: i64,
}

impl View for SubscriptionStore {
    type V = Seq<SubView>;

    closed spec fn view(&self) -> Seq<SubView> {
        sub_views(self.rows@)
    }
}

/// Numbers are distinct, positive, and grow with the rows; no channel follows a repository twice.
pub open spec fn well_numbered(rows: Seq<SubView>, last_id: i64) -> bool {
    &&& forall|i: int| 0 <= i < rows.len() ==> 0 < (#[trigger] rows[i]).id <= last_id
    &&& forall|i: int, j: int|
        0 <= i < j < rows.len() ==> (#[trigger] rows[i]).id < (#[trigger] rows[j]).id
    &&& forall|i: int, j: int|
        0 <= i < j < rows.len() ==> !same_repo(
            #[trigger] rows[i],
            (#[trigger] rows[j]).channel_id,
            rows[j].host,
            rows[j].owner,
            rows[j].repo,
        )
}

proof fn lemma_without_id(rows: Seq<SubView>, id: i64, last: i64)
    requires
        well_numbered(rows, last),
    ensures
        well_numbered(without_id(rows, id), last),
        forall|i: int|
            0 <= i < without_id(rows, id).len() ==> rows.contains(#[trigger] without_id(rows, id)[i]),
        (exists|i: int| 0 <= i < rows.len() && (#[trigger] rows[i]).id == id) ==> without_id(
            rows,
            id,
        ).len() == rows.len() - 1,
        !(exists|i: int| 0 <= i < rows.len() && (#[trigger] rows[i]).id == id) ==> without_id(
            rows,
            id,
        ) == rows,
    decreases rows.len(),
{
    if rows.len() > 0 {
        let init = rows.drop_last();
        assert(well_numbered(init, last)) by {
            assert forall|i: int| 0 <= i < init.len() implies 0 < (#[trigger] init[i]).id <= last by {
                assert(init[i] == rows[i]);
            }
            assert forall|i: int, j: int| 0 <= i < j < init.len() implies (#[trigger] init[i]).id
                < (#[trigger] init[j]).id && !same_repo(
                init[i],
                init[j].channel_id,
                init[j].host,
                init[j].owner,
                init[j].repo,
            ) by {
                assert(init[i] == rows[i] && init[j] == rows[j]);
            }
        }
        lemma_without_id(init, id, last);
        let less = without_id(init, id);
        assert forall|i: int| 0 <= i < less.len() implies rows.contains(#[trigger] less[i]) by {
            assert(init.contains(less[i]));
            let k = choose|k: int| 0 <= k < init.len() && init[k] == less[i];
            assert(rows[k] == less[i]);
        }
        if rows.last().id == id {
            assert(forall|i: int| 0 <= i < init.len() ==> (#[trigger] init[i]).id != id) by {
                assert forall|i: int| 0 <= i < init.len() implies (#[trigger] init[i]).id != id by {
                    assert(init[i] == rows[i]);
                    assert(rows[i].id < rows[rows.len() - 1].id);
                }
            }
            assert(rows[rows.len() - 1].id == id);
        } else {
            let now = less.push(rows.last());
            assert(rows[rows.len() - 1] == rows.last());
            assert forall|i: int| 0 <= i < now.len() implies rows.contains(#[trigger] now[i]) by {
                if i < less.len() {
                    assert(now[i] == less[i]);
                }
            }
            assert forall|i: int, j: int| 0 <= i < j < now.len() implies (#[trigger] now[i]).id < (
            #[trigger] now[j]).id && !same_repo(
                now[i],
                now[j].channel_id,
                now[j].host,
                now[j].owner,
                now[j].repo,
            ) by {
                if j == less.len() {
                    assert(now[i] == less[i]);
                    assert(init.contains(less[i]));
                    let k = choose|k: int| 0 <= k < init.len() && init[k] == less[i];
                    assert(rows[k] == now[i]);
                } else {
                    assert(now[i] == less[i] && now[j] == less[j]);
                }
            }
            assert forall|i: int| 0 <= i < now.len() implies 0 < (#[trigger] now[i]).id <= last by {
                if i < less.len() {
                    assert(now[i] == less[i]);
                }
            }
            if exists|i: int| 0 <= i < rows.len() && (#[trigger] rows[i]).id == id {
                let i = choose|i: int| 0 <= i < rows.len() && (#[trigger] rows[i]).id == id;
                assert(init[i].id == id);
            } else {
                if exists|i: int| 0 <= i < init.len() && (#[trigger] init[i]).id == id {
                    let i = choose|i: int| 0 <= i < init.len() && (#[trigger] init[i]).id == id;
                    assert(rows[i].id == id);
                }
                assert(now =~= rows);
            }
        }
    }
}

proof fn lemma_without_repo(
    rows: Seq<SubView>,
    channel: Seq<char>,
    host: RepoHost,
    owner: Seq<char>,
    repo: Seq<char>,
    at: int,
    last: i64,
)
    requires
        well_numbered(rows, last),
        0 <= at < rows.len(),
        same_repo(rows[at], channel, host, owner, repo),
    ensures
        without_repo(rows, channel, host, owner, repo) == without_id(rows, rows[at].id),
    decreases rows.len(),
{
    let init = rows.drop_last();
    assert(well_numbered(init, last)) by {
        assert forall|i: int| 0 <= i < init.len() implies 0 < (#[trigger] init[i]).id <= last by {
            assert(init[i] == rows[i]);
        }
        assert forall|i: int, j: int| 0 <= i < j < init.len() implies (#[trigger] init[i]).id < (
        #[trigger] init[j]).id && !same_repo(
            init[i],
            init[j].channel_id,
            init[j].host,
            init[j].owner,
            init[j].repo,
        ) by {
            assert(init[i] == rows[i] && init[j] == rows[j]);
        }
    }
    if at == rows.len() - 1 {
        lemma_without_id(init, rows[at].id, last);
        assert forall|i: int| 0 <= i < init.len() implies (#[trigger] init[i]).id != rows[at].id
            && !same_repo(init[i], channel, host, owner, repo) by {
            assert(init[i] == rows[i]);
            assert(rows[i].id < rows[at].id);
        }
        lemma_without_repo_absent(init, channel, host, owner, repo);
    } else {
        assert(init[at] == rows[at]);
        lemma_without_repo(init, channel, host, owner, repo, at, last);
        assert(rows[at].id < rows[rows.len() - 1].id);
        assert(!same_repo(
            rows[at],
            rows[rows.len() - 1].channel_id,
            rows[rows.len() - 1].host,
            rows[rows.len() - 1].owner,
            rows[rows.len() - 1].repo,
        ));
    }
}

proof fn lemma_without_repo_absent(
    rows: Seq<SubView>,
    channel: Seq<char>,
    host: RepoHost,
    owner: Seq<char>,
    repo: Seq<char>,
)
    requires
        forall|i: int|
            0 <= i < rows.len() ==> !same_repo(#[trigger] rows[i], channel, host, owner, repo),
    ensures
        without_repo(rows, channel, host, owner, repo) == rows,
    decreases rows.len(),
{
    if rows.len() > 0 {
        let init = rows.drop_last();
        assert forall|i: int| 0 <= i < init.len() implies !same_repo(
            #[trigger] init[i],
            channel,
            host,
            owner,
            repo,
        ) by {
            assert(init[i] == rows[i]);
        }
        lemma_without_repo_absent(init, channel, host, owner, repo);
        assert(!same_repo(rows[rows.len() - 1], channel, host, owner, repo));
        assert(init.push(rows.last()) =~= rows);
    }
}

impl SubscriptionStore {
    #[verifier::type_invariant]
    spec fn numbered(self) -> bool {
        self.last_id >= 0 && well_numbered(sub_views(self.rows@), self.last_id)
    }

    /// The last number that was given out.
    pub closed spec fn numbers_used(&self) -> i64 {
        self.last_id
    }

    /// A store without subscriptions.
    pub fn new() -> (r: Self)
        ensures
            r@ == Seq::<SubView>::empty(),
            r.numbers_used() == 0,
    {
        let r = SubscriptionStore { rows: Vec::new(), last_id: 0 };
        proof {
            assert(r@ =~= Seq::empty());
        }
        r
    }

    /// The last number that was given out.
    pub fn last_number(&self) -> (r: i64)
        ensures
            r == self.numbers_used(),
    {
        self.last_id
    }

    /// A store of the given rows, where they are numbered upwards from 1 to at most `last_id` and
    /// no channel follows a repository twice.
    pub fn restore(rows: Vec<Subscription>, last_id: i64) -> (r: Option<Self>)
        ensures
            match r {
                Some(store) => last_id >= 0 && well_numbered(sub_views(rows@), last_id) && store@
                    == sub_views(rows@) && store.numbers_used() == last_id,
                None => !(last_id >= 0 && well_numbered(sub_views(rows@), last_id)),
            },
    {
        if last_id < 0 {
            return None;
        }
        let ghost all = sub_views(rows@);
        let mut j: usize = 0;
        while j < rows.len()
            invariant
                j <= rows.len(),
                all == sub_views(rows@),
                well_numbered(all.take(j as int), last_id),
            decreases rows.len() - j,
        {
            let new = &rows[j];
            proof {
                assert(new@ == all[j as int]);
            }
            if new.id <= 0 || new.id > last_id {
                proof {
                    assert(all[j as int].id == new.id);
                }
                return None;
            }
            let mut i: usize = 0;
            while i < j
                invariant
                    i <= j < rows.len(),
                    all == sub_views(rows@),
                    new@ == all[j as int],
                    forall|k: int|
                        0 <= k < i ==> (#[trigger] all[k]).id < new.id && !same_repo(
                            all[k],
                            new.channel_id@,
                            new.host,
                            new.owner@,
                            new.repo@,
                        ),
                decreases j - i,
            {
                let earlier = &rows[i];
                let again = text::same(earlier.channel_id.as_str(), new.channel_id.as_str())
                    && earlier.host == new.host && text::same(
                    earlier.owner.as_str(),
                    new.owner.as_str(),
                ) && text::same(earlier.repo.as_str(), new.repo.as_str());
                proof {
                    assert(earlier@ == all[i as int]);
                }
                if earlier.id >= new.id || again {
                    proof {
                        assert(!well_numbered(all, last_id)) by {
                            assert(all[i as int].id >= all[j as int].id || same_repo(
                                all[i as int],
                                all[j as int].channel_id,
                                all[j as int].host,
                                all[j as int].owner,
                                all[j as int].repo,
                            ));
                        }
                    }
                    return None;
                }
                i = i + 1;
            }
            proof {
                let wider = all.take(j + 1);
                assert forall|a: int, b: int| 0 <= a < b < wider.len() implies (#[trigger] wider[a]).id
                    < (#[trigger] wider[b]).id && !same_repo(
                    wider[a],
                    wider[b].channel_id,
                    wider[b].host,
                    wider[b].owner,
                    wider[b].repo,
                ) by {
                    assert(wider[a] == all[a] && wider[b] == all[b]);
                    if b < j {
                        assert(all.take(j as int)[a] == all[a] && all.take(j as int)[b] == all[b]);
                    }
                }
                assert forall|a: int| 0 <= a < wider.len() implies 0 < (#[trigger] wider[a]).id
                    <= last_id by {
                    if a < j {
                        assert(all.take(j as int)[a] == wider[a]);
                    }
                }
            }
            j = j + 1;
        }
        proof {
            assert(all.take(j as int) =~= all);
        }
        Some(SubscriptionStore { rows, last_id })
    }

    fn find(&self, channel_id: &str, host: RepoHost, owner: &str, repo: &str) -> (r: Option<usize>)
        ensures
            match r {
                Some(i) => i < self.rows.len() && same_repo(
                    self@[i as int],
                    channel_id@,
                    host,
                    owner@,
                    repo@,
                ),
                None => !follows(self@, channel_id@, host, owner@, repo@),
            },
    {
        let mut i: usize = 0;
        while i < self.rows.len()
            invariant
                i <= self.rows.len(),
                forall|k: int|
                    0 <= k < i ==> !same_repo(
                        #[trigger] self@[k],
                        channel_id@,
                        host,
                        owner@,
                        repo@,
                    ),
            decreases self.rows.len() - i,
        {
            let row = &self.rows[i];
            if text::same(row.channel_id.as_str(), channel_id) && row.host == host && text::same(
                row.owner.as_str(),
                owner,
            ) && text::same(row.repo.as_str(), repo) {
                return Some(i);
            }
            i = i + 1;
        }
        None
    }

    /// Lets a channel follow a repository under the next number.
    pub fn add(
        &mut self,
        channel_id: &str,
        host: RepoHost,
        owner: &str,
        repo: &str,
        added_by: &str,
        now: i64,
    ) -> (r: Result<(), AddError>)
        ensures
            match r {
                Ok(_) => !follows(old(self)@, channel_id@, host, owner@, repo@)
                    && old(self).numbers_used() < i64::MAX && final(self).numbers_used()
                    == old(self).numbers_used() + 1 && final(self)@ == old(self)@.push(
                    SubView {
                        id: final(self).numbers_used(),
                        channel_id: channel_id@,
                        host,
                        owner: owner@,
                        repo: repo@,
                        full_slug: owner@ + "/"@ + repo@,
                        added_by: added_by@,
                        added_at: now,
                        last_commit_sha: None,
                        last_release_tag: None,
                        last_poll_at: None,
                    },
                ),
                Err(AddError::Exists) => follows(
                    old(self)@,
                    channel_id@,
                    host,
                    owner@,
                    repo@,
                ) && *final(self) == *old(self),
                Err(AddError::Full) => !follows(old(self)@, channel_id@, host, owner@, repo@)
                    && old(self).numbers_used() == i64::MAX && *final(self) == *old(self),
            },
    {
        proof {
            use_type_invariant(&*self);
        }
        if self.find(channel_id, host, owner, repo).is_some() {
            return Err(AddError::Exists);
        }
        if self.last_id == i64::MAX {
            return Err(AddError::Full);
        }
        let ghost before = self@;
        let id: i64 = self.last_id + 1;
        let row = Subscription {
            id,
            channel_id: channel_id.to_owned(),
            host,
            owner: owner.to_owned(),
            repo: repo.to_owned(),
            full_slug: text::cat3(owner, "/", repo),
            added_by: added_by.to_owned(),
            added_at: now,
            last_commit_sha: None,
            last_release_tag: None,
            last_poll_at: None,
        };
        let ghost added = row@;
        let mut rows: Vec<Subscription> = Vec::new();
        std::mem::swap(&mut rows, &mut self.rows);
        rows.push(row);
        proof {
            let after = sub_views(rows@);
            assert(after =~= before.push(added));
            assert(well_numbered(after, id)) by {
                assert forall|i: int, j: int| 0 <= i < j < after.len() implies !same_repo(
                    #[trigger] after[i],
                    (#[trigger] after[j]).channel_id,
                    after[j].host,
                    after[j].owner,
                    after[j].repo,
                ) by {
                    assert(after[i] == before[i]);
                    if j < before.len() {
                        assert(after[j] == before[j]);
                    }
                }
            }
        }
        *self = SubscriptionStore { rows, last_id: id };
        Ok(())
    }

    fn drop_row(&mut self, at: usize)
        requires
            at < old(self)@.len(),
        ensures
            final(self)@ == without_id(old(self)@, old(self)@[at as int].id),
            final(self)@.len() == old(self)@.len() - 1,
            final(self).numbers_used() == old(self).numbers_used(),
    {
        proof {
            use_type_invariant(&*self);
        }
        let ghost before = self@;
        let id: i64 = self.rows[at].id;
        let last: i64 = self.last_id;
        let mut rows: Vec<Subscription> = Vec::new();
        std::mem::swap(&mut rows, &mut self.rows);
        let _ = rows.remove(at);
        proof {
            assert(sub_views(rows@) =~= before.remove(at as int));
            lemma_remove_is_without(before, at as int, last);
            lemma_without_id(before, id, last);
            assert(before[at as int].id == id);
        }
        *self = SubscriptionStore { rows, last_id: last };
    }

    /// Stops a channel following a repository; whether it did.
    pub fn remove(&mut self, channel_id: &str, host: RepoHost, owner: &str, repo: &str) -> (r: bool)
        ensures
            r == follows(old(self)@, channel_id@, host, owner@, repo@),
            final(self)@ == without_repo(old(self)@, channel_id@, host, owner@, repo@),
            r ==> final(self)@.len() == old(self)@.len() - 1,
            final(self).numbers_used() == old(self).numbers_used(),
    {
        proof {
            use_type_invariant(&*self);
        }
        match self.find(channel_id, host, owner, repo) {
            Some(i) => {
                proof {
                    assert(same_repo(self@[i as int], channel_id@, host, owner@, repo@));
                    lemma_without_repo(
                        self@,
                        channel_id@,
                        host,
                        owner@,
                        repo@,
                        i as int,
                        self.last_id,
                    );
                }
                self.drop_row(i);
                true
            },
            None => {
                proof {
                    lemma_without_repo_absent(self@, channel_id@, host, owner@, repo@);
                }
                false
            },
        }
    }

    /// Removes the subscription with a number; whether there was one.
    pub fn remove_by_id(&mut self, id: i64) -> (r: bool)
        ensures
            r == exists|i: int| 0 <= i < old(self)@.len() && (#[trigger] old(self)@[i]).id == id,
            final(self)@ == without_id(old(self)@, id),
            r ==> final(self)@.len() == old(self)@.len() - 1,
            final(self).numbers_used() == old(self).numbers_used(),
    {
        proof {
            use_type_invariant(&*self);
        }
        let mut i: usize = 0;
        while i < self.rows.len()
            invariant
                i <= self.rows.len(),
                *self == *old(self),
                forall|k: int| 0 <= k < i ==> (#[trigger] self@[k]).id != id,
            decreases self.rows.len() - i,
        {
            if self.rows[i].id == id {
                proof {
                    assert(self@[i as int].id == id);
                }
                self.drop_row(i);
                return true;
            }
            i = i + 1;
        }
        proof {
            lemma_without_id(self@, id, self.last_id);
        }
        false
    }

    /// The subscriptions of a channel, the oldest first.
    pub fn list_for_channel(&self, channel_id: &str) -> (r: Vec<Subscription>)
        ensures
            by_age(sub_views(r@), of_channel(self@, channel_id@)),
    {
        let mut found: Vec<usize> = Vec::new();
        let mut keys: Vec<i128> = Vec::new();
        let ghost all = self@;
        let mut i: usize = 0;
        proof {
            assert(all.take(0) =~= Seq::empty());
        }
        while i < self.rows.len()
            invariant
                i <= self.rows.len(),
                all == self@,
                found.len() == keys.len(),
                found.len() == of_channel(all.take(i as int), channel_id@).len(),
                forall|k: int|
                    0 <= k < found.len() ==> (#[trigger] found@[k]) < i && of_channel(
                        all.take(i as int),
                        channel_id@,
                    )[k] == all[found@[k] as int] && keys@[k] == all[found@[k] as int].added_at,
            decreases self.rows.len() - i,
        {
            let ghost before = of_channel(all.take(i as int), channel_id@);
            proof {
                assert(all.take(i + 1).drop_last() =~= all.take(i as int));
                assert(all.take(i + 1).last() == all[i as int]);
            }
            let row = &self.rows[i];
            if text::same(row.channel_id.as_str(), channel_id) {
                found.push(i);
                keys.push(row.added_at as i128);
            }
            i = i + 1;
        }
        proof {
            assert(all.take(i as int) =~= all);
        }
        let ghost rows = of_channel(all, channel_id@);
        proof {
            assert forall|k: int| 0 <= k < keys.len() implies #[trigger] keys@[k] == added_times(
                rows,
            )[k] by {
                assert(rows[k] == all[found@[k] as int]);
            }
            assert(keys@ =~= added_times(rows));
        }
        let how = order::sort_order(&keys, true);
        let mut out: Vec<Subscription> = Vec::new();
        let mut k: usize = 0;
        while k < how.len()
            invariant
                k <= how.len(),
                all == self@,
                order::sorts(how@, keys@, true),
                found.len() == keys.len(),
                found.len() == rows.len(),
                forall|j: int|
                    0 <= j < found.len() ==> (#[trigger] found@[j]) < self.rows.len() && rows[j]
                        == all[found@[j] as int],
                out.len() == k,
                forall|j: int|
                    0 <= j < k ==> (#[trigger] out@[j])@ == rows[how@[j] as int],
            decreases how.len() - k,
        {
            let at: usize = found[how[k]];
            out.push(self.rows[at].copy());
            k = k + 1;
        }
        proof {
            assert(order::sorts(how@, added_times(rows), true));
            let list = sub_views(out@);
            assert forall|j: int| 0 <= j < list.len() implies #[trigger] list[j]
                == rows[how@[j] as int] by {
                assert(out@[j]@ == rows[how@[j] as int]);
            }
        }
        out
    }

    /// The subscriptions of a channel by number: those that a look at this channel alone is for.
    pub fn polled_for_channel(&self, channel_id: &str) -> (r: Vec<Subscription>)
        ensures
            sub_views(r@) == of_channel(self@, channel_id@),
    {
        let ghost all = self@;
        let mut out: Vec<Subscription> = Vec::new();
        let mut i: usize = 0;
        proof {
            assert(all.take(0) =~= Seq::empty());
            assert(sub_views(out@) =~= of_channel(all.take(0), channel_id@));
        }
        while i < self.rows.len()
            invariant
                i <= self.rows.len(),
                all == self@,
                sub_views(out@) == of_channel(all.take(i as int), channel_id@),
            decreases self.rows.len() - i,
        {
            proof {
                assert(all.take(i + 1).drop_last() =~= all.take(i as int));
                assert(all.take(i + 1).last() == all[i as int]);
            }
            let row = &self.rows[i];
            if text::same(row.channel_id.as_str(), channel_id) {
                let ghost before = out@;
                out.push(row.copy());
                proof {
                    assert(sub_views(out@) =~= sub_views(before).push(all[i as int]));
                }
            }
            i = i + 1;
        }
        proof {
            assert(all.take(i as int) =~= all);
        }
        out
    }

    /// All subscriptions by number.
    pub fn list_all(&self) -> (r: Vec<Subscription>)
        ensures
            sub_views(r@) == self@,
            forall|i: int, j: int|
                0 <= i < j < r.len() ==> (#[trigger] r@[i]).id < (#[trigger] r@[j]).id,
    {
        proof {
            use_type_invariant(self);
        }
        let mut out: Vec<Subscription> = Vec::new();
        let mut i: usize = 0;
        while i < self.rows.len()
            invariant
                i <= self.rows.len(),
                out.len() == i,
                forall|k: int| 0 <= k < i ==> (#[trigger] out@[k])@ == self@[k],
            decreases self.rows.len() - i,
        {
            out.push(self.rows[i].copy());
            i = i + 1;
        }
        proof {
            assert(sub_views(out@) =~= self@);
            assert forall|i: int, j: int| 0 <= i < j < out.len() implies (#[trigger] out@[i]).id < (
            #[trigger] out@[j]).id by {
                assert(out@[i]@.id == self@[i].id && out@[j]@.id == self@[j].id);
            }
        }
        out
    }

    /// How many repositories a channel follows.
    pub fn count_for_channel(&self, channel_id: &str) -> (r: usize)
        ensures
            r == of_channel(self@, channel_id@).len(),
    {
        let ghost all = self@;
        let mut count: usize = 0;
        let mut i: usize = 0;
        proof {
            assert(all.take(0) =~= Seq::empty());
        }
        while i < self.rows.len()
            invariant
                i <= self.rows.len(),
                all == self@,
                count <= i,
                count == of_channel(all.take(i as int), channel_id@).len(),
            decreases self.rows.len() - i,
        {
            proof {
                assert(all.take(i + 1).drop_last() =~= all.take(i as int));
                assert(all.take(i + 1).last() == all[i as int]);
            }
            if text::same(self.rows[i].channel_id.as_str(), channel_id) {
                count = count + 1;
            }
            i = i + 1;
        }
        proof {
            assert(all.take(i as int) =~= all);
        }
        count
    }

    /// Whether a channel follows a repository.
    pub fn is_subscribed(&self, channel_id: &str, host: RepoHost, owner: &str, repo: &str) -> (r: bool)
        ensures
            r == follows(self@, channel_id@, host, owner@, repo@),
    {
        match self.find(channel_id, host, owner, repo) {
            Some(i) => {
                proof {
                    assert(same_repo(self@[i as int], channel_id@, host, owner@, repo@));
                }
                true
            },
            None => false,
        }
    }

    fn record_poll(&mut self, id: i64, sha: Option<&str>, tag: Option<&str>, now: i64)
        ensures
            final(self)@ == rows_polled(
                old(self)@,
                id,
                text::opt_str_view(sha),
                text::opt_str_view(tag),
                now,
            ),
            final(self).numbers_used() == old(self).numbers_used(),
    {
        proof {
            use_type_invariant(&*self);
        }
        let ghost before = self@;
        let ghost after = rows_polled(
            before,
            id,
            text::opt_str_view(sha),
            text::opt_str_view(tag),
            now,
        );
        let last: i64 = self.last_id;
        let mut out: Vec<Subscription> = Vec::new();
        let mut i: usize = 0;
        while i < self.rows.len()
            invariant
                i <= self.rows.len(),
                self@ == before,
                self.numbers_used() == last,
                out.len() == i,
                after == rows_polled(
                    before,
                    id,
                    text::opt_str_view(sha),
                    text::opt_str_view(tag),
                    now,
                ),
                forall|k: int| 0 <= k < i ==> (#[trigger] out@[k])@ == after[k],
            decreases self.rows.len() - i,
        {
            let mut row = self.rows[i].copy();
            proof {
                assert(row@ == before[i as int]);
            }
            if row.id == id {
                if let Some(s) = sha {
                    row.last_commit_sha = Some(s.to_owned());
                }
                if let Some(t) = tag {
                    row.last_release_tag = Some(t.to_owned());
                }
                row.last_poll_at = Some(now);
            }
            proof {
                assert(row@ =~= after[i as int]);
            }
            out.push(row);
            i = i + 1;
        }
        proof {
            assert(sub_views(out@) =~= after);
            assert(well_numbered(after, last)) by {
                assert forall|i: int| 0 <= i < after.len() implies 0 < (#[trigger] after[i]).id
                    <= last by {
                    assert(after[i].id == before[i].id);
                }
                assert forall|i: int, j: int| 0 <= i < j < after.len() implies (#[trigger] after[i]).id
                    < (#[trigger] after[j]).id && !same_repo(
                    after[i],
                    after[j].channel_id,
                    after[j].host,
                    after[j].owner,
                    after[j].repo,
                ) by {
                    assert(before[i].id < before[j].id);
                    assert(!same_repo(
                        before[i],
                        before[j].channel_id,
                        before[j].host,
                        before[j].owner,
                        before[j].repo,
                    ));
                }
            }
        }
        *self = SubscriptionStore { rows: out, last_id: last };
    }

    /// Records the last commit that was seen of a subscription.
    pub fn set_last_commit_sha(&mut self, id: i64, sha: &str, now: i64)
        ensures
            final(self)@ == rows_polled(old(self)@, id, Some(sha@), None, now),
            final(self).numbers_used() == old(self).numbers_used(),
    {
        self.record_poll(id, Some(sha), None, now);
    }

    /// Records the last release that was seen of a subscription.
    pub fn set_last_release_tag(&mut self, id: i64, tag: &str, now: i64)
        ensures
            final(self)@ == rows_polled(old(self)@, id, None, Some(tag@), now),
            final(self).numbers_used() == old(self).numbers_used(),
    {
        self.record_poll(id, None, Some(tag), now);
    }

    /// Records that a subscription was looked at.
    pub fn touch_poll(&mut self, id: i64, now: i64)
        ensures
            final(self)@ == rows_polled(old(self)@, id, None, None, now),
            final(self).numbers_used() == old(self).numbers_used(),
    {
        self.record_poll(id, None, None, now);
    }
}

proof fn lemma_remove_is_without(rows: Seq<SubView>, at: int, last: i64)
    requires
        well_numbered(rows, last),
        0 <= at < rows.len(),
    ensures
        rows.remove(at) == without_id(rows, rows[at].id),
    decreases rows.len(),
{
    let init = rows.drop_last();
    assert(well_numbered(init, last)) by {
        assert forall|i: int| 0 <= i < init.len() implies 0 < (#[trigger] init[i]).id <= last by {
            assert(init[i] == rows[i]);
        }
        assert forall|i: int, j: int| 0 <= i < j < init.len() implies (#[trigger] init[i]).id < (
        #[trigger] init[j]).id && !same_repo(
            init[i],
            init[j].channel_id,
            init[j].host,
            init[j].owner,
            init[j].repo,
        ) by {
            assert(init[i] == rows[i] && init[j] == rows[j]);
        }
    }
    if at == rows.len() - 1 {
        assert forall|i: int| 0 <= i < init.len() implies (#[trigger] init[i]).id != rows[at].id by {
            assert(init[i] == rows[i]);
            assert(rows[i].id < rows[at].id);
        }
        lemma_without_id(init, rows[at].id, last);
        assert(rows.remove(at) =~= init);
    } else {
        assert(init[at] == rows[at]);
        lemma_remove_is_without(init, at, last);
        assert(rows[at].id < rows[rows.len() - 1].id);
        assert(rows.remove(at) =~= init.remove(at).push(rows.last()));
    }
}

/// A repository that a channel stopped following is not followed, and every other subscription
/// stays.
pub proof fn law_removed_is_gone(
    rows: Seq<SubView>,
    channel: Seq<char>,
    host: RepoHost,
    owner: Seq<char>,
    repo: Seq<char>,
    c: Seq<char>,
    h: RepoHost,
    o: Seq<char>,
    p: Seq<char>,
)
    requires
        (c, h, o, p) != (channel, host, owner, repo),
    ensures
        !follows(without_repo(rows, channel, host, owner, repo), channel, host, owner, repo),
        follows(without_repo(rows, channel, host, owner, repo), c, h, o, p) == follows(
            rows,
            c,
            h,
            o,
            p,
        ),
    decreases rows.len(),
{
    if rows.len() > 0 {
        let init = rows.drop_last();
        law_removed_is_gone(init, channel, host, owner, repo, c, h, o, p);
        let less = without_repo(init, channel, host, owner, repo);
        let now = without_repo(rows, channel, host, owner, repo);
        assert(follows(rows, c, h, o, p) <==> follows(init, c, h, o, p) || same_repo(
            rows.last(),
            c,
            h,
            o,
            p,
        )) by {
            if follows(rows, c, h, o, p) {
                let i = choose|i: int|
                    0 <= i < rows.len() && same_repo(#[trigger] rows[i], c, h, o, p);
                if i < init.len() {
                    assert(same_repo(init[i], c, h, o, p));
                }
            }
            if follows(init, c, h, o, p) {
                let i = choose|i: int|
                    0 <= i < init.len() && same_repo(#[trigger] init[i], c, h, o, p);
                assert(same_repo(rows[i], c, h, o, p));
            }
            assert(rows[rows.len() - 1] == rows.last());
        }
        if !same_repo(rows.last(), channel, host, owner, repo) {
            assert(now == less.push(rows.last()));
            assert(now[less.len() as int] == rows.last());
            assert(follows(now, c, h, o, p) <==> follows(less, c, h, o, p) || same_repo(
                rows.last(),
                c,
                h,
                o,
                p,
            )) by {
                if follows(now, c, h, o, p) {
                    let i = choose|i: int|
                        0 <= i < now.len() && same_repo(#[trigger] now[i], c, h, o, p);
                    if i < less.len() {
                        assert(same_repo(less[i], c, h, o, p));
                    }
                }
                if follows(less, c, h, o, p) {
                    let i = choose|i: int|
                        0 <= i < less.len() && same_repo(#[trigger] less[i], c, h, o, p);
                    assert(same_repo(now[i], c, h, o, p));
                }
            }
            if follows(now, channel, host, owner, repo) {
                let i = choose|i: int|
                    0 <= i < now.len() && same_repo(#[trigger] now[i], channel, host, owner, repo);
                assert(same_repo(less[i], channel, host, owner, repo));
            }
        }
    }
}

} // verus!
