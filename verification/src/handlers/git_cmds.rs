//! The `!git` command.

use vstd::prelude::*;
use crate::git_monitor::detect::{ParsedRepo, RepoView};
use crate::git_monitor::store::{AddError, RepoHost, SubView, Subscription, SubscriptionStore};
use crate::git_monitor::{detect, store};
use crate::{number, order, text};

verus! {

/// The name of a host, for people to read.
pub open spec fn host_label(host: RepoHost) -> Seq<char> {
    match host {
        RepoHost::GitHub => "GitHub"@,
        RepoHost::GitLab => "GitLab"@,
    }
}

fn label_of(host: RepoHost) -> (r: &'static str)
    ensures
        r@ == host_label(host),
{
    match host {
        RepoHost::GitHub => "GitHub",
        RepoHost::GitLab => "GitLab",
    }
}

// ---------------------------------------------------------------------------
// !git add
// ---------------------------------------------------------------------------

/// How `!git add` is used.
pub open spec fn add_usage() -> Seq<char> {
    "Usage: !git add <url|owner/repo>\nExamples:\n!git add https://github.com/owner/repo\n!git add owner/repo\n!git add gitlab owner/repo\n!git add https://gitlab.com/owner/repo"@
}

fn show_add_usage() -> (r: String)
    ensures
        r@ == add_usage(),
{
    "Usage: !git add <url|owner/repo>\nExamples:\n!git add https://github.com/owner/repo\n!git add owner/repo\n!git add gitlab owner/repo\n!git add https://gitlab.com/owner/repo".to_owned()
}

/// What `!git add` does: the repository that is added, or what is said where none is.
pub open spec fn add_step(
    rows: Seq<SubView>,
    used: i64,
    channel: Seq<char>,
    args: Seq<char>,
    max: usize,
) -> Result<RepoView, Seq<char>> {
    let count = store::of_channel(rows, channel).len();
    if text::trimmed(args).len() == 0 {
        Err(add_usage())
    } else {
        match detect::parsed(text::trimmed(args)) {
            Err(e) => Err("⚠️ "@ + e),
            Ok(p) => if count >= max {
                Err(
                    "⚠️ This channel already has "@ + number::decimal(count)
                        + " subscriptions (max: "@ + number::decimal(max as nat)
                        + "). Use !git remove to free up space."@,
                )
            } else if store::follows(rows, channel, p.host, p.owner, p.repo) {
                Err("ℹ️ Already subscribed to "@ + p.slug() + " in this channel."@)
            } else if used == i64::MAX {
                Err("⚠️ Could not add subscription: "@ + AddError::Full.message())
            } else {
                Ok(p)
            },
        }
    }
}

/// What is said of a repository that was added.
pub open spec fn added_text(p: RepoView) -> Seq<char> {
    "✅ Subscribed to "@ + host_label(p.host) + " "@ + p.slug() + " ("@ + p.url()
        + ")\nNew commits and releases will be announced here automatically.\nUse !git remove "@
        + p.slug() + " to unsubscribe."@
}

/// The row of a repository that was added.
pub open spec fn added_row(
    id: i64,
    channel: Seq<char>,
    p: RepoView,
    added_by: Seq<char>,
    now: i64,
) -> SubView {
    SubView {
        id,
        channel_id: channel,
        host: p.host,
        owner: p.owner,
        repo: p.repo,
        full_slug: p.owner + "/"@ + p.repo,
        added_by,
        added_at: now,
        last_commit_sha: None,
        last_release_tag: None,
        last_poll_at: None,
    }
}

fn show_added(p: &ParsedRepo) -> (r: String)
    ensures
        r@ == added_text(p@),
{
    let slug = p.slug();
    let mut out = text::cat7(
        "✅ Subscribed to ",
        label_of(p.host),
        " ",
        slug.as_str(),
        " (",
        p.url().as_str(),
        ")\nNew commits and releases will be announced here automatically.\nUse !git remove ",
    );
    out.push_str(slug.as_str());
    out.push_str(" to unsubscribe.");
    out
}

/// Answers `!git add`: the channel follows the repository from now on.
pub fn git_add_command(
    subs: &mut SubscriptionStore,
    channel_id: &str,
    added_by: &str,
    args: &str,
    max: usize,
    now: i64,
) -> (r: String)
    ensures
        match add_step(old(subs)@, old(subs).numbers_used(), channel_id@, args@, max) {
            Err(why) => {
                &&& r@ == why
                &&& final(subs)@ == old(subs)@
                &&& final(subs).numbers_used() == old(subs).numbers_used()
            },
            Ok(p) => {
                &&& r@ == added_text(p)
                &&& final(subs).numbers_used() == old(subs).numbers_used() + 1
                &&& final(subs)@ == old(subs)@.push(
                    added_row(final(subs).numbers_used(), channel_id@, p, added_by@, now),
                )
            },
        },
{
    let input = text::trim(args);
    if input.is_empty() {
        return show_add_usage();
    }
    let p = match detect::parse_repo(input) {
        Ok(p) => p,
        Err(e) => {
            return text::cat2("⚠️ ", e.as_str());
        },
    };
    let count: usize = subs.count_for_channel(channel_id);
    if count >= max {
        return text::cat5(
            "⚠️ This channel already has ",
            number::show_size(count).as_str(),
            " subscriptions (max: ",
            number::show_size(max).as_str(),
            "). Use !git remove to free up space.",
        );
    }
    if subs.is_subscribed(channel_id, p.host, p.owner.as_str(), p.repo.as_str()) {
        return text::cat3("ℹ️ Already subscribed to ", p.slug().as_str(), " in this channel.");
    }
    match subs.add(channel_id, p.host, p.owner.as_str(), p.repo.as_str(), added_by, now) {
        Err(e) => text::cat2("⚠️ Could not add subscription: ", e.to_text().as_str()),
        Ok(_) => show_added(&p),
    }
}

// ---------------------------------------------------------------------------
// !git list
// ---------------------------------------------------------------------------

/// A subscription as a line.
pub open spec fn list_line(place: int, s: SubView) -> Seq<char> {
    number::decimal((place + 1) as nat) + ". "@ + (match s.host {
        RepoHost::GitHub => "🐙"@,
        RepoHost::GitLab => "🦊"@,
    }) + " "@ + s.full_slug + " — "@ + s.host.url() + (if s.last_commit_sha is None {
        " (initializing…)"@
    } else {
        ""@
    })
}

/// Subscriptions as lines.
pub open spec fn list_lines(list: Seq<SubView>) -> Seq<Seq<char>> {
    Seq::new(list.len(), |i: int| list_line(i, list[i]))
}

/// The reply with the subscriptions of a channel.
pub open spec fn list_text(list: Seq<SubView>) -> Seq<char> {
    if list.len() == 0 {
        "📦 No repo subscriptions in this channel.\nUse !git add <url|owner/repo> to subscribe."@
    } else {
        text::joined(
            seq![
                "📦 Repo subscriptions in this channel ("@ + number::decimal(list.len()) + ")"@,
            ] + list_lines(list) + seq!["\nUse !git remove <number|slug> to unsubscribe."@],
            "\n"@,
        )
    }
}

fn show_line(place: usize, s: &Subscription) -> (r: String)
    ensures
        r@ == list_line(place as int, s@),
{
    let icon = match s.host {
        RepoHost::GitHub => "🐙",
        RepoHost::GitLab => "🦊",
    };
    let status = if s.last_commit_sha.is_none() {
        " (initializing…)"
    } else {
        ""
    };
    let mut out = text::cat6(
        number::show_wide(place as u128 + 1).as_str(),
        ". ",
        icon,
        " ",
        s.full_slug.as_str(),
        " — ",
    );
    out.push_str(s.host.base_url());
    out.push_str(status);
    out
}

/// Writes a list of subscriptions.
pub fn show_list(list: &Vec<Subscription>) -> (r: String)
    ensures
        r@ == list_text(store::sub_views(list@)),
{
    let ghost all = store::sub_views(list@);
    proof {
        assert(all.len() == list.len());
    }
    if list.len() == 0 {
        return "📦 No repo subscriptions in this channel.\nUse !git add <url|owner/repo> to subscribe.".to_owned();
    }
    let mut lines: Vec<String> = Vec::new();
    let head = text::cat3(
        "📦 Repo subscriptions in this channel (",
        number::show_size(list.len()).as_str(),
        ")",
    );
    let ghost first = head@;
    lines.push(head);
    let mut i: usize = 0;
    while i < list.len()
        invariant
            i <= list.len(),
            lines.len() == i + 1,
            all == store::sub_views(list@),
            lines@[0]@ == first,
            forall|k: int| 1 <= k <= i ==> (#[trigger] lines@[k])@ == list_line(k - 1, all[k - 1]),
        decreases list.len() - i,
    {
        proof {
            assert(all[i as int] == list@[i as int]@);
        }
        lines.push(show_line(i, &list[i]));
        i = i + 1;
    }
    lines.push("\nUse !git remove <number|slug> to unsubscribe.".to_owned());
    proof {
        assert(text::views(lines@) =~= seq![first] + list_lines(all) + seq![
            "\nUse !git remove <number|slug> to unsubscribe."@,
        ]);
    }
    text::join(&lines, "\n")
}

/// Answers `!git list`: the subscriptions of the channel by their age.
pub fn git_list_command(subs: &SubscriptionStore, channel_id: &str) -> (r: String)
    ensures
        exists|list: Seq<SubView>| #[trigger]
            store::by_age(list, store::of_channel(subs@, channel_id@)) && r@ == list_text(list),
{
    let list = subs.list_for_channel(channel_id);
    show_list(&list)
}

// ---------------------------------------------------------------------------
// !git remove
// ---------------------------------------------------------------------------

/// What removing by number does to the rows, and the reply. Numbers are those of the list that
/// `!git list` shows.
pub open spec fn remove_numbered(rows: Seq<SubView>, list: Seq<SubView>, number: nat) -> (
    Seq<SubView>,
    Seq<char>,
) {
    if number == 0 {
        (rows, "⚠️ Numbers start at 1. Use !git list to see positions."@)
    } else if number > list.len() {
        (
            rows,
            "⚠️ No subscription #"@ + number::decimal(number) + ". This channel has "@
                + number::decimal(list.len()) + " repo(s). Use !git list to see them."@,
        )
    } else {
        let s = list[number - 1];
        (
            store::without_id(rows, s.id),
            "✅ Removed "@ + s.full_slug + " (was #"@ + number::decimal(number) + ")"@,
        )
    }
}

/// What removing by name does to the rows, and the reply.
pub open spec fn remove_named(rows: Seq<SubView>, channel: Seq<char>, input: Seq<char>) -> (
    Seq<SubView>,
    Seq<char>,
) {
    match detect::parsed(input) {
        Err(e) => (rows, "⚠️ "@ + e),
        Ok(p) => (
            store::without_repo(rows, channel, p.host, p.owner, p.repo),
            if store::follows(rows, channel, p.host, p.owner, p.repo) {
                "✅ Unsubscribed from "@ + host_label(p.host) + " "@ + p.slug() + "."@
            } else {
                "⚠️ No subscription for "@ + p.slug() + " in this channel."@
            },
        ),
    }
}

/// The number that a removal names, if it names one.
pub open spec fn named_number(args: Seq<char>) -> Option<nat> {
    number::unsigned_parsed(text::trimmed(args), usize::MAX as nat)
}

proof fn lemma_of_channel_member(rows: Seq<SubView>, channel: Seq<char>, k: int)
    requires
        0 <= k < store::of_channel(rows, channel).len(),
    ensures
        exists|i: int|
            0 <= i < rows.len() && #[trigger] rows[i] == store::of_channel(rows, channel)[k],
    decreases rows.len(),
{
    let init = rows.drop_last();
    let rest = store::of_channel(init, channel);
    if rows.last().channel_id == channel && k == rest.len() {
        assert(rows[rows.len() - 1] == store::of_channel(rows, channel)[k]);
    } else {
        lemma_of_channel_member(init, channel, k);
        let i = choose|i: int| 0 <= i < init.len() && #[trigger] init[i] == rest[k];
        assert(rows[i] == rest[k]);
    }
}

fn remove_at(subs: &mut SubscriptionStore, channel_id: &str, number: usize) -> (r: String)
    ensures
        exists|list: Seq<SubView>| #[trigger]
            store::by_age(list, store::of_channel(old(subs)@, channel_id@)) && (final(subs)@, r@)
                == remove_numbered(old(subs)@, list, number as nat),
        final(subs).numbers_used() == old(subs).numbers_used(),
{
    let list = subs.list_for_channel(channel_id);
    let ghost all = store::sub_views(list@);
    let ghost rows = store::of_channel(subs@, channel_id@);
    proof {
        assert(all.len() == list.len());
    }
    if number == 0 {
        return "⚠️ Numbers start at 1. Use !git list to see positions.".to_owned();
    }
    if number > list.len() {
        return text::cat5(
            "⚠️ No subscription #",
            number::show_size(number).as_str(),
            ". This channel has ",
            number::show_size(list.len()).as_str(),
            " repo(s). Use !git list to see them.",
        );
    }
    let s = &list[number - 1];
    proof {
        assert(all[number - 1] == s@);
        let how = choose|how: Seq<usize>| #[trigger]
            order::sorts(how, store::added_times(rows), true) && all.len() == rows.len()
                && forall|k: int| 0 <= k < all.len() ==> #[trigger] all[k] == rows[how[k] as int];
        assert(how[number - 1] < rows.len());
        lemma_of_channel_member(subs@, channel_id@, how[number - 1] as int);
    }
    if subs.remove_by_id(s.id) {
        text::cat5(
            "✅ Removed ",
            s.full_slug.as_str(),
            " (was #",
            number::show_size(number).as_str(),
            ")",
        )
    } else {
        "⚠️ Subscription vanished before removal.".to_owned()
    }
}

fn remove_repo(subs: &mut SubscriptionStore, channel_id: &str, input: &str) -> (r: String)
    ensures
        (final(subs)@, r@) == remove_named(old(subs)@, channel_id@, input@),
        final(subs).numbers_used() == old(subs).numbers_used(),
{
    match detect::parse_repo(input) {
        Err(e) => text::cat2("⚠️ ", e.as_str()),
        Ok(p) => if subs.remove(channel_id, p.host, p.owner.as_str(), p.repo.as_str()) {
            text::cat5("✅ Unsubscribed from ", label_of(p.host), " ", p.slug().as_str(), ".")
        } else {
            text::cat3("⚠️ No subscription for ", p.slug().as_str(), " in this channel.")
        },
    }
}

/// How `!git remove` is used.
pub open spec fn remove_usage() -> Seq<char> {
    "Usage: !git remove <repo-slug|id>\nExamples: !git remove owner/repo, !git remove 3"@
}

fn show_remove_usage() -> (r: String)
    ensures
        r@ == remove_usage(),
{
    "Usage: !git remove <repo-slug|id>\nExamples: !git remove owner/repo, !git remove 3".to_owned()
}

/// Answers `!git remove`: by the number in the list, or by the repository.
pub fn git_remove_command(subs: &mut SubscriptionStore, channel_id: &str, args: &str) -> (r: String)
    ensures
        if text::trimmed(args@).len() == 0 {
            &&& r@ == remove_usage()
            &&& final(subs)@ == old(subs)@
        } else {
            match named_number(args@) {
                Some(n) => exists|list: Seq<SubView>| #[trigger]
                    store::by_age(list, store::of_channel(old(subs)@, channel_id@)) && (
                    final(subs)@, r@) == remove_numbered(old(subs)@, list, n),
                None => (final(subs)@, r@) == remove_named(
                    old(subs)@,
                    channel_id@,
                    text::trimmed(args@),
                ),
            }
        },
        final(subs).numbers_used() == old(subs).numbers_used(),
{
    let input = text::trim(args);
    if input.is_empty() {
        return show_remove_usage();
    }
    match number::parse_usize(input) {
        Some(n) => remove_at(subs, channel_id, n),
        None => remove_repo(subs, channel_id, input),
    }
}

// ---------------------------------------------------------------------------
// !git poll and the dispatcher
// ---------------------------------------------------------------------------

/// The reply to `!git poll`.
pub open spec fn poll_text(count: nat) -> Seq<char> {
    if count == 0 {
        "📦 No subscriptions in this channel to poll."@
    } else {
        "🔄 Force-polling "@ + number::decimal(count) + " subscriptions…"@
    }
}

/// Answers `!git poll`: the reply, and the subscriptions to poll, which are those of this channel.
pub fn git_poll_command(subs: &SubscriptionStore, channel_id: &str) -> (r: (
    String,
    Vec<Subscription>,
))
    ensures
        r.0@ == poll_text(store::of_channel(subs@, channel_id@).len()),
        store::sub_views(r.1@) == store::of_channel(subs@, channel_id@),
{
    let here = subs.polled_for_channel(channel_id);
    proof {
        assert(store::sub_views(here@).len() == here.len());
    }
    if here.len() == 0 {
        ("📦 No subscriptions in this channel to poll.".to_owned(), here)
    } else {
        (
            text::cat3(
                "🔄 Force-polling ",
                number::show_size(here.len()).as_str(),
                " subscriptions…",
            ),
            here,
        )
    }
}

/// What `!git poll` looks at are subscriptions of the channel that it was asked in, each of them.
pub proof fn law_poll_keeps_to_the_channel(rows: Seq<SubView>, channel: Seq<char>, s: SubView)
    ensures
        store::of_channel(rows, channel).contains(s) <==> rows.contains(s) && s.channel_id
            == channel,
    decreases rows.len(),
{
    let here = store::of_channel(rows, channel);
    if rows.len() > 0 {
        let init = rows.drop_last();
        let rest = store::of_channel(init, channel);
        law_poll_keeps_to_the_channel(init, channel, s);
        assert(rows =~= init.push(rows.last()));
        if rest.contains(s) {
            let k = choose|k: int| 0 <= k < rest.len() && rest[k] == s;
            assert(here[k] == s);
        }
        if init.contains(s) {
            let k = choose|k: int| 0 <= k < init.len() && init[k] == s;
            assert(rows[k] == s);
        }
        if here.contains(s) && s != rows.last() {
            let k = choose|k: int| 0 <= k < here.len() && here[k] == s;
            assert(rest[k] == s);
        }
        if rows.contains(s) && s != rows.last() {
            let k = choose|k: int| 0 <= k < rows.len() && rows[k] == s;
            assert(init[k] == s);
        }
        if s == rows.last() {
            assert(rows[rows.len() - 1] == s);
            if s.channel_id == channel {
                assert(here[here.len() - 1] == s);
            }
        }
    }
}

/// What `!git` is asked for.
#[derive(Debug, Clone, Copy, PartialEq, Eq, Structural)]
pub enum GitVerb {
    Add,
    List,
    Remove,
    Poll,
    Usage,
    Unknown,
}

/// What a word asks of `!git`.
pub open spec fn verb_of(word: Seq<char>) -> GitVerb {
    if word == "add"@ {
        GitVerb::Add
    } else if word == "list"@ {
        GitVerb::List
    } else if word == "remove"@ || word == "rm"@ || word == "delete"@ {
        GitVerb::Remove
    } else if word == "poll"@ {
        GitVerb::Poll
    } else if word == ""@ {
        GitVerb::Usage
    } else {
        GitVerb::Unknown
    }
}

fn read_verb(word: &str) -> (r: GitVerb)
    ensures
        r == verb_of(word@),
{
    if text::same(word, "add") {
        GitVerb::Add
    } else if text::same(word, "list") {
        GitVerb::List
    } else if text::same(word, "remove") || text::same(word, "rm") || text::same(word, "delete") {
        GitVerb::Remove
    } else if text::same(word, "poll") {
        GitVerb::Poll
    } else if text::same(word, "") {
        GitVerb::Usage
    } else {
        GitVerb::Unknown
    }
}

/// What follows the first word of the arguments.
pub open spec fn rest_of(args: Seq<char>) -> Seq<char> {
    text::or_else(text::tail_words(text::trimmed(args)), ""@)
}

/// How `!git` is used.
pub open spec fn git_usage() -> Seq<char> {
    "📦 Git Monitor commands:\n!git add <url|owner/repo> — Subscribe to a repo\n!git list — Show subscriptions\n!git remove <repo|id> — Unsubscribe\n!git poll — Force poll (owner only)"@
}

fn show_git_usage() -> (r: String)
    ensures
        r@ == git_usage(),
{
    "📦 Git Monitor commands:\n!git add <url|owner/repo> — Subscribe to a repo\n!git list — Show subscriptions\n!git remove <repo|id> — Unsubscribe\n!git poll — Force poll (owner only)".to_owned()
}

/// What is said of a word that `!git` does not know.
pub open spec fn unknown_verb(word: Seq<char>) -> Seq<char> {
    "⚠️ Unknown !git subcommand \""@ + word
        + "\". Try: !git add, !git list, !git remove, !git poll"@
}

fn show_unknown_verb(word: &str) -> (r: String)
    ensures
        r@ == unknown_verb(word@),
{
    text::cat3(
        "⚠️ Unknown !git subcommand \"",
        word,
        "\". Try: !git add, !git list, !git remove, !git poll",
    )
}

/// What `!git` answers where the monitor is off: how it is used, or that nothing can be done.
pub open spec fn answer_when_off(args: Seq<char>) -> Seq<char> {
    let word = text::head_word(text::trimmed(args));
    let bare = text::trimmed(rest_of(args)).len() == 0;
    match verb_of(word) {
        GitVerb::Add if bare => add_usage(),
        GitVerb::Remove if bare => remove_usage(),
        GitVerb::Usage => git_usage(),
        GitVerb::Unknown => unknown_verb(word),
        _ => "⚠️ Git monitor is not initialized."@,
    }
}

/// Answers `!git` where the monitor is off.
pub fn git_command_when_off(args: &str) -> (r: String)
    ensures
        r@ == answer_when_off(args@),
{
    let (word, tail) = text::split_word(text::trim(args));
    let rest = text::own_or(tail, "");
    let bare = text::trim(rest.as_str()).is_empty();
    match read_verb(word) {
        GitVerb::Add if bare => show_add_usage(),
        GitVerb::Remove if bare => show_remove_usage(),
        GitVerb::Usage => show_git_usage(),
        GitVerb::Unknown => show_unknown_verb(word),
        _ => "⚠️ Git monitor is not initialized.".to_owned(),
    }
}

/// Answers `!git`: the reply, and the subscriptions to poll now.
pub fn git_command(
    subs: &mut SubscriptionStore,
    channel_id: &str,
    sender: &str,
    args: &str,
    max: usize,
    now: i64,
) -> (r: (String, Vec<Subscription>))
    ensures
        ({
            let word = text::head_word(text::trimmed(args@));
            let rest = rest_of(args@);
            let here = store::of_channel(old(subs)@, channel_id@);
            match verb_of(word) {
                GitVerb::Add => r.1.len() == 0 && match add_step(
                    old(subs)@,
                    old(subs).numbers_used(),
                    channel_id@,
                    rest,
                    max,
                ) {
                    Err(why) => r.0@ == why && final(subs)@ == old(subs)@,
                    Ok(p) => r.0@ == added_text(p) && final(subs)@ == old(subs)@.push(
                        added_row(
                            (old(subs).numbers_used() + 1) as i64,
                            channel_id@,
                            p,
                            sender@,
                            now,
                        ),
                    ),
                },
                GitVerb::List => r.1.len() == 0 && final(subs)@ == old(subs)@ && exists|list: Seq<SubView>|
                    #[trigger] store::by_age(list, here) && r.0@ == list_text(list),
                GitVerb::Remove => r.1.len() == 0 && if text::trimmed(rest).len() == 0 {
                    &&& final(subs)@ == old(subs)@
                    &&& r.0@ == remove_usage()
                } else {
                    match named_number(rest) {
                        Some(n) => exists|list: Seq<SubView>| #[trigger]
                            store::by_age(list, here) && (final(subs)@, r.0@) == remove_numbered(
                                old(subs)@,
                                list,
                                n,
                            ),
                        None => (final(subs)@, r.0@) == remove_named(
                            old(subs)@,
                            channel_id@,
                            text::trimmed(rest),
                        ),
                    }
                },
                GitVerb::Poll => final(subs)@ == old(subs)@ && r.0@ == poll_text(here.len())
                    && store::sub_views(r.1@) == here,
                GitVerb::Usage => r.1.len() == 0 && final(subs)@ == old(subs)@ && r.0@ == git_usage(),
                GitVerb::Unknown => r.1.len() == 0 && final(subs)@ == old(subs)@ && r.0@
                    == unknown_verb(word),
            }
        }),
{
    let (word, tail) = text::split_word(text::trim(args));
    let rest = text::own_or(tail, "");
    match read_verb(word) {
        GitVerb::Add => (
            git_add_command(subs, channel_id, sender, rest.as_str(), max, now),
            Vec::new(),
        ),
        GitVerb::List => (git_list_command(subs, channel_id), Vec::new()),
        GitVerb::Remove => (git_remove_command(subs, channel_id, rest.as_str()), Vec::new()),
        GitVerb::Poll => git_poll_command(subs, channel_id),
        GitVerb::Usage => (show_git_usage(), Vec::new()),
        GitVerb::Unknown => (show_unknown_verb(word), Vec::new()),
    }
}

/// A channel that has its share of repositories gets no more.
pub proof fn law_full_channel_adds_nothing(
    rows: Seq<SubView>,
    used: i64,
    channel: Seq<char>,
    args: Seq<char>,
    max: usize,
)
    requires
        store::of_channel(rows, channel).len() >= max,
    ensures
        add_step(rows, used, channel, args, max) is Err,
{
}

/// A repository that was added is followed.
pub proof fn law_added_is_followed(
    rows: Seq<SubView>,
    id: i64,
    channel: Seq<char>,
    p: RepoView,
    added_by: Seq<char>,
    now: i64,
)
    ensures
        store::follows(
            rows.push(added_row(id, channel, p, added_by, now)),
            channel,
            p.host,
            p.owner,
            p.repo,
        ),
{
    let more = rows.push(added_row(id, channel, p, added_by, now));
    assert(store::same_repo(more[rows.len() as int], channel, p.host, p.owner, p.repo));
}

} // verus!
