//! Reading a repository out of what a user typed.

use vstd::prelude::*;
use crate::git_monitor::store::RepoHost;
use crate::text;

verus! {

/// A repository on a host.
pub struct ParsedRepo {
    pub host: RepoHost,
    pub owner: String,
    pub repo: String,
}

/// What a parsed repository says.
pub struct RepoView {
    pub host: RepoHost,
    pub owner: Seq<char>,
    pub repo: Seq<char>,
}

impl View for ParsedRepo {
    type V = RepoView;

    open spec fn view(&self) -> RepoView {
        RepoView { host: self.host, owner: self.owner@, repo: self.repo@ }
    }
}

impl RepoView {
    /// Owner and repository in one.
    pub open spec fn slug(self) -> Seq<char> {
        self.owner + "/"@ + self.repo
    }

    /// Where the repository is.
    pub open spec fn url(self) -> Seq<char> {
        self.host.url() + "/"@ + self.owner + "/"@ + self.repo
    }
}

impl ParsedRepo {
    /// `owner/repo`.
    pub fn slug(&self) -> (r: String)
        ensures
            r@ == self@.slug(),
    {
        text::cat3(self.owner.as_str(), "/", self.repo.as_str())
    }

    /// The repository's address.
    pub fn url(&self) -> (r: String)
        ensures
            r@ == self@.url(),
    {
        text::cat5(self.host.base_url(), "/", self.owner.as_str(), "/", self.repo.as_str())
    }
}

/// The outcome of parsing, by its views.
pub open spec fn outcome(r: Result<ParsedRepo, String>) -> Result<RepoView, Seq<char>> {
    match r {
        Ok(p) => Ok(p@),
        Err(e) => Err(e@),
    }
}

/// The first two parts of a path, where neither is empty.
pub open spec fn two_parts(path: Seq<char>) -> Option<(Seq<char>, Seq<char>)> {
    let parts = text::pieces(path, '/');
    if parts.len() < 2 || parts[0].len() == 0 || parts[1].len() == 0 {
        None
    } else {
        Some((parts[0], parts[1]))
    }
}

/// What a bare `owner/repo` names, on GitHub.
pub open spec fn bare_slug(s: Seq<char>) -> Result<RepoView, Seq<char>> {
    match two_parts(s) {
        None => Err("Invalid slug \""@ + s + "\". Expected: owner/repo"@),
        Some((owner, repo)) => if owner.contains(' ') || repo.contains(' ') {
            Err("Owner and repo must not contain spaces."@)
        } else {
            Ok(RepoView { host: RepoHost::GitHub, owner, repo })
        },
    }
}

/// What a path behind a host's name names.
pub open spec fn slug_after_host(
    cleaned: Seq<char>,
    prefix: Seq<char>,
    host: RepoHost,
) -> Result<RepoView, Seq<char>> {
    match two_parts(cleaned.skip(prefix.len() as int)) {
        None => Err("Invalid repo path after "@ + prefix + ". Expected: owner/repo"@),
        Some((owner, repo)) => Ok(RepoView { host, owner, repo }),
    }
}

/// What a path behind the name of some other GitLab host names.
pub open spec fn self_hosted(cleaned: Seq<char>) -> Result<RepoView, Seq<char>> {
    match text::cut_once(cleaned, '/') {
        None => Err("Invalid GitLab URL"@),
        Some((_, rest)) => match two_parts(rest) {
            None => Err("Invalid repo path after GitLab host. Expected: owner/repo"@),
            Some((owner, repo)) => Ok(RepoView { host: RepoHost::GitLab, owner, repo }),
        },
    }
}

/// What the form `host owner/repo` names. The host's name may be in any case.
pub open spec fn explicit_prefix(input: Seq<char>) -> Option<RepoView> {
    let lower = text::str_lowercase(input);
    let github = "github "@.is_prefix_of(lower);
    if github || "gitlab "@.is_prefix_of(lower) {
        match text::cut_once(input, ' ') {
            None => None,
            Some((_, rest)) => match bare_slug(text::trimmed(rest)) {
                Ok(r) => Some(
                    RepoView {
                        host: if github {
                            RepoHost::GitHub
                        } else {
                            RepoHost::GitLab
                        },
                        ..r
                    },
                ),
                Err(_) => None,
            },
        }
    } else {
        None
    }
}

/// The input without its scheme.
pub open spec fn without_scheme(input: Seq<char>) -> Seq<char> {
    if "https://"@.is_prefix_of(input) {
        input.skip("https://"@.len() as int)
    } else if "http://"@.is_prefix_of(input) {
        input.skip("http://"@.len() as int)
    } else {
        input
    }
}

/// The input without its scheme, trailing slashes and `.git`.
pub open spec fn cleaned_path(input: Seq<char>) -> Seq<char> {
    text::trimmed_end_str(text::trimmed_end_char(without_scheme(input), '/'), ".git"@)
}

/// What a user's input names: `host owner/repo`, an address at GitHub, at gitlab.com or at some
/// other GitLab host, or a bare `owner/repo` on GitHub.
pub open spec fn parsed(typed: Seq<char>) -> Result<RepoView, Seq<char>> {
    let input = text::trimmed(typed);
    let cleaned = cleaned_path(input);
    if input.len() == 0 {
        Err("Empty input. Usage: !git add <url|owner/repo>"@)
    } else if explicit_prefix(input) is Some {
        Ok(explicit_prefix(input)->0)
    } else if "github.com/"@.is_prefix_of(cleaned) {
        slug_after_host(cleaned, "github.com/"@, RepoHost::GitHub)
    } else if "gitlab.com/"@.is_prefix_of(cleaned) {
        slug_after_host(cleaned, "gitlab.com/"@, RepoHost::GitLab)
    } else if "gitlab."@.is_prefix_of(cleaned) && cleaned.contains('/') {
        self_hosted(cleaned)
    } else if cleaned.contains('/') && !cleaned.contains(' ') && cleaned[0] != '/' {
        bare_slug(cleaned)
    } else {
        Err(
            "Could not parse \""@ + input
                + "\". Usage: !git add <url|owner/repo>\nExamples: !git add https://github.com/owner/repo, !git add owner/repo, !git add gitlab owner/repo"@,
        )
    }
}

fn split_two(path: &str) -> (r: Option<(String, String)>)
    ensures
        match r {
            Some((a, b)) => two_parts(path@) == Some((a@, b@)),
            None => two_parts(path@) is None,
        },
{
    let parts = text::split_char(path, '/');
    let ghost all = text::views(parts@);
    if parts.len() < 2 {
        return None;
    }
    proof {
        assert(all[0] == parts@[0]@ && all[1] == parts@[1]@);
    }
    if parts[0].as_str().is_empty() || parts[1].as_str().is_empty() {
        None
    } else {
        Some((parts[0].clone(), parts[1].clone()))
    }
}

fn parse_bare_slug(s: &str) -> (r: Result<ParsedRepo, String>)
    ensures
        outcome(r) == bare_slug(s@),
{
    match split_two(s) {
        None => Err(text::cat3("Invalid slug \"", s, "\". Expected: owner/repo")),
        Some((owner, repo)) => {
            if text::contains_char(owner.as_str(), ' ') || text::contains_char(repo.as_str(), ' ') {
                Err("Owner and repo must not contain spaces.".to_owned())
            } else {
                Ok(ParsedRepo { host: RepoHost::GitHub, owner, repo })
            }
        },
    }
}

fn parse_slug_after_host(cleaned: &str, prefix: &str, host: RepoHost) -> (r: Result<
    ParsedRepo,
    String,
>)
    requires
        prefix@.is_prefix_of(cleaned@),
    ensures
        outcome(r) == slug_after_host(cleaned@, prefix@, host),
{
    let rest = match text::strip_prefix(cleaned, prefix) {
        Some(rest) => rest,
        None => cleaned,
    };
    match split_two(rest) {
        None => Err(text::cat3("Invalid repo path after ", prefix, ". Expected: owner/repo")),
        Some((owner, repo)) => Ok(ParsedRepo { host, owner, repo }),
    }
}

fn parse_gitlab_self_hosted(cleaned: &str) -> (r: Result<ParsedRepo, String>)
    ensures
        outcome(r) == self_hosted(cleaned@),
{
    match text::split_once(cleaned, '/') {
        None => Err("Invalid GitLab URL".to_owned()),
        Some((_, rest)) => match split_two(rest) {
            None => Err("Invalid repo path after GitLab host. Expected: owner/repo".to_owned()),
            Some((owner, repo)) => Ok(ParsedRepo { host: RepoHost::GitLab, owner, repo }),
        },
    }
}

fn try_explicit_prefix(input: &str) -> (r: Option<ParsedRepo>)
    ensures
        match r {
            Some(p) => explicit_prefix(input@) == Some(p@),
            None => explicit_prefix(input@) is None,
        },
{
    let lower = text::to_lowercase(input);
    let github = text::starts_with(lower.as_str(), "github ");
    if github || text::starts_with(lower.as_str(), "gitlab ") {
        match text::split_once(input, ' ') {
            None => None,
            Some((_, rest)) => match parse_bare_slug(text::trim(rest)) {
                Ok(p) => Some(
                    ParsedRepo {
                        host: if github {
                            RepoHost::GitHub
                        } else {
                            RepoHost::GitLab
                        },
                        owner: p.owner,
                        repo: p.repo,
                    },
                ),
                Err(_) => None,
            },
        }
    } else {
        None
    }
}

/// Reads a repository out of what a user typed.
pub fn parse_repo(input: &str) -> (r: Result<ParsedRepo, String>)
    ensures
        outcome(r) == parsed(input@),
{
    let input = text::trim(input);
    if input.is_empty() {
        return Err("Empty input. Usage: !git add <url|owner/repo>".to_owned());
    }
    if let Some(p) = try_explicit_prefix(input) {
        return Ok(p);
    }
    let bare = match text::strip_prefix(input, "https://") {
        Some(rest) => rest,
        None => match text::strip_prefix(input, "http://") {
            Some(rest) => rest,
            None => input,
        },
    };
    let cleaned = text::trim_end_str(text::trim_end_char(bare, '/'), ".git");
    if text::starts_with(cleaned, "github.com/") {
        return parse_slug_after_host(cleaned, "github.com/", RepoHost::GitHub);
    }
    if text::starts_with(cleaned, "gitlab.com/") {
        return parse_slug_after_host(cleaned, "gitlab.com/", RepoHost::GitLab);
    }
    if text::starts_with(cleaned, "gitlab.") && text::contains_char(cleaned, '/') {
        return parse_gitlab_self_hosted(cleaned);
    }
    if text::contains_char(cleaned, '/') && !text::contains_char(cleaned, ' ')
        && !text::starts_with_char(cleaned, '/') {
        return parse_bare_slug(cleaned);
    }
    Err(
        text::cat3(
            "Could not parse \"",
            input,
            "\". Usage: !git add <url|owner/repo>\nExamples: !git add https://github.com/owner/repo, !git add owner/repo, !git add gitlab owner/repo",
        ),
    )
}

/// A repository that was read has an owner and a name, neither empty and neither with a slash.
pub proof fn law_parsed_parts_are_plain(typed: Seq<char>)
    requires
        parsed(typed) is Ok,
    ensures
        parsed(typed)->Ok_0.owner.len() > 0,
        parsed(typed)->Ok_0.repo.len() > 0,
        !parsed(typed)->Ok_0.owner.contains('/'),
        !parsed(typed)->Ok_0.repo.contains('/'),
{
    let input = text::trimmed(typed);
    let cleaned = cleaned_path(input);
    if explicit_prefix(input) is Some {
        let halves = text::cut_once(input, ' ')->0;
        lemma_parts_plain(text::trimmed(halves.1));
    } else {
        lemma_parts_plain(cleaned);
        lemma_parts_plain(cleaned.skip("github.com/"@.len() as int));
        lemma_parts_plain(cleaned.skip("gitlab.com/"@.len() as int));
        if text::cut_once(cleaned, '/') is Some {
            let halves = text::cut_once(cleaned, '/')->0;
            lemma_parts_plain(halves.1);
        }
    }
}

proof fn lemma_parts_plain(path: Seq<char>)
    ensures
        match two_parts(path) {
            Some((a, b)) => a.len() > 0 && b.len() > 0 && !a.contains('/') && !b.contains('/'),
            None => true,
        },
{
    text::lemma_pieces_lack(path, '/');
}

// ---------------------------------------------------------------------------
// Addresses read back
// ---------------------------------------------------------------------------

/// Whether a name can stand between the slashes of an address.
pub open spec fn plain_part(s: Seq<char>) -> bool {
    &&& s.len() > 0
    &&& forall|i: int| 0 <= i < s.len() ==> #[trigger] s[i] != '/' && !text::char_is_whitespace(s[i])
}

/// Whether every character is whitespace.
pub open spec fn blank(s: Seq<char>) -> bool {
    forall|i: int| 0 <= i < s.len() ==> text::char_is_whitespace(#[trigger] s[i])
}

/// Whether a text behind the name of a repository leaves it as it is: nothing, `.git` with or
/// without slashes behind it, or a path of its own without whitespace.
pub open spec fn leaves_repo(tail: Seq<char>) -> bool {
    &&& tail.len() == 0 || tail[0] == '/' || text::trimmed_end_char(tail, '/') == ".git"@
    &&& forall|i: int| 0 <= i < tail.len() ==> !text::char_is_whitespace(#[trigger] tail[i])
}

impl RepoView {
    /// Whether a repository has names that an address can hold.
    pub open spec fn addressable(self) -> bool {
        &&& plain_part(self.owner)
        &&& plain_part(self.repo)
        &&& !(".git"@.is_suffix_of(self.repo))
    }

    /// The host and the path of the repository.
    pub open spec fn path(self) -> Seq<char> {
        (match self.host {
            RepoHost::GitHub => "github.com/"@,
            RepoHost::GitLab => "gitlab.com/"@,
        }) + self.owner + "/"@ + self.repo
    }
}

/// A repository is read back from its address, whatever path follows it and with whitespace
/// around it.
pub proof fn law_url_reads_back(
    p: RepoView,
    tail: Seq<char>,
    before: Seq<char>,
    after: Seq<char>,
)
    requires
        p.addressable(),
        leaves_repo(tail),
        blank(before),
        blank(after),
    ensures
        parsed(p.url()) == Ok::<RepoView, Seq<char>>(p),
        parsed(before + (p.url() + tail) + after) == Ok::<RepoView, Seq<char>>(p),
{
    let none = Seq::<char>::empty();
    reveal_strlit("https://");
    reveal_strlit("https://github.com");
    reveal_strlit("https://gitlab.com");
    reveal_strlit("github.com/");
    reveal_strlit("gitlab.com/");
    reveal_strlit("/");
    assert(p.url() =~= "https://"@ + p.path());
    law_path_reads_back(p, "https://"@, tail, before, after);
    law_path_reads_back(p, "https://"@, none, none, none);
    assert(none + (p.url() + none) + none =~= p.url());
}

/// A repository is read back from its host and path under either scheme or none, whatever path
/// follows it and with whitespace around it.
pub proof fn law_path_reads_back(
    p: RepoView,
    scheme: Seq<char>,
    tail: Seq<char>,
    before: Seq<char>,
    after: Seq<char>,
)
    requires
        p.addressable(),
        scheme == "https://"@ || scheme == "http://"@ || scheme.len() == 0,
        leaves_repo(tail),
        blank(before),
        blank(after),
    ensures
        parsed(before + (scheme + p.path() + tail) + after) == Ok::<RepoView, Seq<char>>(p),
{
    let input = scheme + p.path() + tail;
    lemma_address_plain(p, scheme, tail);
    text::lemma_trim_around(before, input, after);
    text::lemma_first_of_bounds(input, ' ');
    assert(explicit_prefix(input) is None);
    lemma_scheme_taken(p, scheme, tail);
    text::lemma_trim_end_char_after(p.path(), tail, '/');
    let kept = text::trimmed_end_char(tail, '/');
    if tail.len() > 0 && tail[0] == '/' && kept.len() > 0 {
        assert(kept[0] == tail[0]);
    }
    lemma_path_not_git(p);
    let rest = lemma_git_taken(p.path(), kept);
    assert(cleaned_path(input) == p.path() + rest);
    lemma_path_parts(p, rest);
}

/// A repository on GitHub is read back from its owner and name, where the owner is not called like
/// a host.
pub proof fn law_slug_reads_back(p: RepoView)
    requires
        p.addressable(),
        p.host == RepoHost::GitHub,
        p.owner != "github.com"@,
        !("gitlab."@.is_prefix_of(p.owner)),
    ensures
        parsed(p.slug()) == Ok::<RepoView, Seq<char>>(p),
{
    let input = p.slug();
    let none = Seq::<char>::empty();
    reveal_strlit("/");
    lemma_slug_parts(p);
    assert(none + input + none =~= input);
    text::lemma_trim_around(none, input, none);
    text::lemma_first_of_bounds(input, ' ');
    assert(explicit_prefix(input) is None);
    reveal_strlit("https://");
    reveal_strlit("http://");
    reveal_strlit("github.com");
    reveal_strlit("github.com/");
    reveal_strlit("gitlab.com/");
    reveal_strlit("gitlab.");
    reveal_strlit(".git");
    let cut = p.owner.len() as int;
    assert(input[cut] == '/');
    assert(input[cut + 1] == p.repo[0]);
    assert forall|i: int| 0 <= i < cut implies #[trigger] input[i] == p.owner[i] && input[i]
        != '/' by {}
    if "https://"@.is_prefix_of(input) {
        assert(input.subrange(0, 8)[6] == '/' && input.subrange(0, 8)[7] == '/');
        assert(input[6] == '/' && input[7] == '/');
        assert(cut + 1 == 7);
    }
    if "http://"@.is_prefix_of(input) {
        assert(input.subrange(0, 7)[5] == '/' && input.subrange(0, 7)[6] == '/');
        assert(input[5] == '/' && input[6] == '/');
        assert(cut + 1 == 6);
    }
    assert(without_scheme(input) == input);
    assert(input.last() == p.repo[p.repo.len() - 1]);
    assert(text::trimmed_end_char(input, '/') == input);
    let n = p.repo.len() as int;
    if ".git"@.is_suffix_of(input) {
        let end = input.subrange(input.len() - 4, input.len() as int);
        assert(".git"@ =~= end);
        if n >= 4 {
            assert(p.repo.subrange(n - 4, n) =~= end);
        } else {
            assert(end[3 - n] == '/');
        }
    }
    assert(cleaned_path(input) == input);
    if "github.com/"@.is_prefix_of(input) {
        assert(input.subrange(0, 11)[10] == '/');
        assert forall|i: int| 0 <= i < 10 implies #[trigger] input[i] != '/' by {
            assert(input.subrange(0, 11)[i] == input[i]);
        }
        assert(cut == 10);
        assert(p.owner =~= input.subrange(0, 11).take(10));
        assert(p.owner =~= "github.com"@);
    }
    if "gitlab."@.is_prefix_of(input) {
        assert forall|i: int| 0 <= i < 7 implies #[trigger] input[i] != '/' by {
            assert(input.subrange(0, 7)[i] == input[i]);
        }
        assert(cut >= 7);
        assert(p.owner.subrange(0, 7) =~= input.subrange(0, 7));
    }
    if "gitlab.com/"@.is_prefix_of(input) {
        assert(input.subrange(0, 7) =~= input.subrange(0, 11).take(7));
        assert("gitlab.com/"@.take(7) =~= "gitlab."@);
    }
}

/// A repository with names in ASCII is read back from the name of its host, its owner and its
/// own name.
pub proof fn law_named_host_reads_back(p: RepoView)
    requires
        plain_part(p.owner),
        plain_part(p.repo),
        text::ascii_only(p.owner),
        text::ascii_only(p.repo),
    ensures
        parsed(p.host.name() + " "@ + p.slug()) == Ok::<RepoView, Seq<char>>(p),
{
    let input = p.host.name() + " "@ + p.slug();
    let none = Seq::<char>::empty();
    reveal_strlit("/");
    reveal_strlit(" ");
    reveal_strlit("github");
    reveal_strlit("gitlab");
    reveal_strlit("github ");
    reveal_strlit("gitlab ");
    lemma_slug_parts(p);
    assert(none + input + none =~= input);
    assert(input[0] == 'g');
    assert(input.last() == p.slug().last());
    text::lemma_trim_around(none, input, none);
    assert(text::ascii_only(p.slug())) by {
        assert forall|i: int| 0 <= i < p.slug().len() implies '\0' <= #[trigger] p.slug()[i]
            <= '\u{7f}' by {
            if i < p.owner.len() {
                assert(p.slug()[i] == p.owner[i]);
            } else if i > p.owner.len() {
                assert(p.slug()[i] == p.repo[i - 1 - p.owner.len()]);
            }
        }
    }
    assert(text::ascii_only(input)) by {
        assert forall|i: int| 0 <= i < input.len() implies '\0' <= #[trigger] input[i]
            <= '\u{7f}' by {
            if i >= 7 {
                assert(input[i] == p.slug()[i - 7]);
            }
        }
    }
    let lower = text::str_lowercase(input);
    assert(lower.subrange(0, 7) =~= p.host.name() + " "@);
    assert("github "@ =~= "github"@ + " "@);
    assert("gitlab "@ =~= "gitlab"@ + " "@);
    assert("github "@[3] == 'h' && "gitlab "@[3] == 'l');
    assert(lower.subrange(0, 7)[3] == p.host.name()[3]);
    text::lemma_first_of(input, ' ', 6);
    assert(input.skip(7) =~= p.slug());
    assert(none + p.slug() + none =~= p.slug());
    text::lemma_trim_around(none, p.slug(), none);
}

proof fn lemma_slug_parts(p: RepoView)
    requires
        plain_part(p.owner),
        plain_part(p.repo),
    ensures
        two_parts(p.slug()) == Some((p.owner, p.repo)),
        p.slug().contains('/'),
        !p.slug().contains(' '),
        !p.owner.contains(' '),
        !p.repo.contains(' '),
        p.slug().len() > 0,
        p.slug()[0] != '/',
        !text::char_is_whitespace(p.slug()[0]),
        !text::char_is_whitespace(p.slug().last()),
{
    let slug = p.slug();
    reveal_strlit("/");
    assert(slug =~= p.owner.push('/') + p.repo);
    assert(!p.owner.contains('/') && !p.repo.contains('/'));
    text::lemma_one_piece(p.owner, '/');
    text::lemma_last_piece(p.owner, p.repo, '/');
    assert(text::pieces(slug, '/') =~= seq![p.owner, p.repo]);
    assert(slug[p.owner.len() as int] == '/');
    assert(slug[0] == p.owner[0]);
    assert(slug.last() == p.repo[p.repo.len() - 1]);
    if p.owner.contains(' ') {
        let k = choose|k: int| 0 <= k < p.owner.len() && p.owner[k] == ' ';
        assert(!text::char_is_whitespace(p.owner[k]));
    }
    if p.repo.contains(' ') {
        let k = choose|k: int| 0 <= k < p.repo.len() && p.repo[k] == ' ';
        assert(!text::char_is_whitespace(p.repo[k]));
    }
    if slug.contains(' ') {
        let k = choose|k: int| 0 <= k < slug.len() && slug[k] == ' ';
        if k < p.owner.len() {
            assert(p.owner[k] == ' ');
        } else if k > p.owner.len() {
            assert(p.repo[k - 1 - p.owner.len()] == ' ');
        }
    }
}

proof fn lemma_address_plain(p: RepoView, scheme: Seq<char>, tail: Seq<char>)
    requires
        p.addressable(),
        scheme == "https://"@ || scheme == "http://"@ || scheme.len() == 0,
        leaves_repo(tail),
    ensures
        ({
            let input = scheme + p.path() + tail;
            &&& input.len() > 0
            &&& !text::char_is_whitespace(input[0])
            &&& !text::char_is_whitespace(input.last())
            &&& !input.contains(' ')
        }),
        p.path().len() > 0,
        p.path().last() != '/',
{
    let path = p.path();
    let input = scheme + path + tail;
    reveal_strlit("https://");
    reveal_strlit("http://");
    reveal_strlit("github.com/");
    reveal_strlit("gitlab.com/");
    reveal_strlit("/");
    assert(path.last() == p.repo[p.repo.len() - 1]);
    assert forall|i: int| 0 <= i < path.len() implies !text::char_is_whitespace(
        #[trigger] path[i],
    ) by {
        if i < 11 {
            assert(path[i] == match p.host {
                RepoHost::GitHub => "github.com/"@[i],
                RepoHost::GitLab => "gitlab.com/"@[i],
            });
        } else if i < 11 + p.owner.len() {
            assert(path[i] == p.owner[i - 11]);
        } else if i == 11 + p.owner.len() {
            assert(path[i] == '/');
        } else {
            assert(path[i] == p.repo[i - 12 - p.owner.len()]);
        }
    }
    assert forall|i: int| 0 <= i < input.len() implies !text::char_is_whitespace(
        #[trigger] input[i],
    ) by {
        if i < scheme.len() {
            assert(input[i] == scheme[i]);
        } else if i < scheme.len() + path.len() {
            assert(input[i] == path[i - scheme.len()]);
        } else {
            assert(input[i] == tail[i - scheme.len() - path.len()]);
        }
    }
    if input.contains(' ') {
        let k = choose|k: int| 0 <= k < input.len() && input[k] == ' ';
        assert(text::char_is_whitespace(input[k]));
    }
    assert(!text::char_is_whitespace(input[input.len() - 1]));
}

proof fn lemma_scheme_taken(p: RepoView, scheme: Seq<char>, tail: Seq<char>)
    requires
        scheme == "https://"@ || scheme == "http://"@ || scheme.len() == 0,
    ensures
        without_scheme(scheme + p.path() + tail) == p.path() + tail,
{
    let input = scheme + p.path() + tail;
    reveal_strlit("https://");
    reveal_strlit("http://");
    reveal_strlit("github.com/");
    reveal_strlit("gitlab.com/");
    assert(input.skip(scheme.len() as int) =~= p.path() + tail);
    if scheme.len() == 0 {
        assert(input =~= p.path() + tail);
        assert(input[0] == 'g');
        assert("https://"@[0] == 'h' && "http://"@[0] == 'h');
    } else {
        assert(scheme =~= input.subrange(0, scheme.len() as int));
        if scheme == "http://"@ {
            assert(input[4] == ':' && "https://"@[4] == 's');
        }
    }
}

proof fn lemma_path_not_git(p: RepoView)
    requires
        p.addressable(),
    ensures
        !(".git"@.is_suffix_of(p.path())),
{
    let path = p.path();
    let n = p.repo.len() as int;
    reveal_strlit(".git");
    reveal_strlit("/");
    if ".git"@.is_suffix_of(path) {
        let end = path.subrange(path.len() - 4, path.len() as int);
        assert(".git"@ =~= end);
        if n >= 4 {
            assert(p.repo.subrange(n - 4, n) =~= end);
        } else {
            assert(path[path.len() - 1 - n] == '/');
            assert(end[3 - n] == '/');
        }
    }
}

proof fn lemma_git_taken(base: Seq<char>, t: Seq<char>) -> (rest: Seq<char>)
    requires
        !(".git"@.is_suffix_of(base)),
        t.len() == 0 || t[0] == '/' || t == ".git"@,
    ensures
        text::trimmed_end_str(base + t, ".git"@) == base + rest,
        rest.len() == 0 || rest[0] == '/',
    decreases t.len(),
{
    let all = base + t;
    let n = t.len() as int;
    reveal_strlit(".git");
    if t.len() == 0 {
        assert(all =~= base);
        t
    } else if t == ".git"@ {
        assert(all.subrange(all.len() - 4, all.len() as int) =~= t);
        assert(all.take(all.len() - 4) =~= base);
        assert(text::trimmed_end_str(base, t) == base);
        assert(base + Seq::<char>::empty() =~= base);
        Seq::empty()
    } else if ".git"@.is_suffix_of(all) {
        let end = all.subrange(all.len() - 4, all.len() as int);
        assert(".git"@ =~= end);
        if n <= 4 {
            assert(all[all.len() - n] == '/');
            assert(end[4 - n] == '/');
        }
        assert(all.take(all.len() - 4) =~= base + t.take(n - 4));
        lemma_git_taken(base, t.take(n - 4))
    } else {
        t
    }
}

proof fn lemma_path_parts(p: RepoView, rest: Seq<char>)
    requires
        p.addressable(),
        rest.len() == 0 || rest[0] == '/',
    ensures
        "github.com/"@.is_prefix_of(p.path() + rest) <==> p.host == RepoHost::GitHub,
        "gitlab.com/"@.is_prefix_of(p.path() + rest) <==> p.host == RepoHost::GitLab,
        two_parts((p.path() + rest).skip("github.com/"@.len() as int)) == Some((p.owner, p.repo)),
        two_parts((p.path() + rest).skip("gitlab.com/"@.len() as int)) == Some((p.owner, p.repo)),
{
    let all = p.path() + rest;
    let names = p.owner.push('/') + p.repo;
    reveal_strlit("github.com/");
    reveal_strlit("gitlab.com/");
    reveal_strlit("/");
    assert(all.subrange(0, 11) =~= match p.host {
        RepoHost::GitHub => "github.com/"@,
        RepoHost::GitLab => "gitlab.com/"@,
    });
    assert("github.com/"@[3] == 'h' && "gitlab.com/"@[3] == 'l');
    assert(all.skip(11) =~= names + rest);
    assert(!p.owner.contains('/') && !p.repo.contains('/'));
    text::lemma_one_piece(p.owner, '/');
    text::lemma_last_piece(p.owner, p.repo, '/');
    let two = text::pieces(names, '/');
    assert(two =~= seq![p.owner, p.repo]);
    if rest.len() > 0 {
        text::lemma_pieces_before(names, rest, '/');
        let parts = text::pieces(names + rest, '/');
        assert(parts.take(2)[0] == parts[0] && parts.take(2)[1] == parts[1]);
    } else {
        assert(names + rest =~= names);
    }
}

} // verus!
