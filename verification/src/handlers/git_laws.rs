//! What holds of the `!git` commands as a whole.

use vstd::prelude::*;
use crate::git_monitor::detect;
use crate::git_monitor::store;
use crate::git_monitor::store::{RepoHost, SubView};
use crate::handlers::git_cmds;
use crate::{number, text};

verus! {

/// A repository is added where it is named rightly, the channel has room and does not follow it yet,
/// and a number is left; otherwise it is not.
pub proof fn law_when_repositories_are_added(
    rows: Seq<SubView>,
    used: i64,
    channel: Seq<char>,
    args: Seq<char>,
    max: usize,
)
    requires
        text::trimmed(args) == args,
    ensures
        git_cmds::add_step(rows, used, channel, args, max) is Ok <==> args.len() > 0 && detect::parsed(
            args,
        ) is Ok && store::of_channel(rows, channel).len() < max && !store::follows(
            rows,
            channel,
            detect::parsed(args)->Ok_0.host,
            detect::parsed(args)->Ok_0.owner,
            detect::parsed(args)->Ok_0.repo,
        ) && used < i64::MAX,
        git_cmds::add_step(rows, used, channel, args, max) matches Ok(p) ==> detect::parsed(args) == Ok::<
            _,
            Seq<char>,
        >(p),
{
}

/// How many repositories a channel follows grows by one with each that is added there, and by none
/// with one that is added elsewhere.
pub proof fn law_subscriptions_are_counted(rows: Seq<SubView>, s: SubView, channel: Seq<char>)
    ensures
        s.channel_id == channel ==> store::of_channel(rows.push(s), channel) == store::of_channel(
            rows,
            channel,
        ).push(s),
        s.channel_id != channel ==> store::of_channel(rows.push(s), channel) == store::of_channel(
            rows,
            channel,
        ),
        store::of_channel(Seq::empty(), channel).len() == 0,
{
    assert(rows.push(s).drop_last() =~= rows);
}

/// A new row is of the repository, the channel and the user that it was added for, and nothing has
/// been seen of it yet.
pub proof fn law_new_row_is_fresh(
    id: i64,
    channel: Seq<char>,
    p: detect::RepoView,
    by: Seq<char>,
    now: i64,
)
    ensures
        ({
            let s = git_cmds::added_row(id, channel, p, by, now);
            &&& s.id == id && s.channel_id == channel && s.added_by == by && s.added_at == now
            &&& s.host == p.host && s.owner == p.owner && s.repo == p.repo
            &&& s.full_slug == p.owner + "/"@ + p.repo
            &&& s.last_commit_sha is None && s.last_release_tag is None && s.last_poll_at is None
        }),
{
}

/// Each subscription is listed with its number, counted from one, and its slug; the number that
/// stands there removes it.
#[verifier::rlimit(30)]
pub proof fn law_listed_number_removes(rows: Seq<SubView>, list: Seq<SubView>, i: int)
    requires
        0 <= i < list.len(),
    ensures
        text::has_substring(
            git_cmds::list_text(list),
            number::decimal((i + 1) as nat) + ". "@ + (match list[i].host {
                RepoHost::GitHub => "🐙"@,
                RepoHost::GitLab => "🦊"@,
            }) + " "@ + list[i].full_slug,
        ),
        git_cmds::remove_numbered(rows, list, (i + 1) as nat).0 == store::without_id(
            rows,
            list[i].id,
        ),
        text::has_substring(
            git_cmds::remove_numbered(rows, list, (i + 1) as nat).1,
            "Removed "@ + list[i].full_slug,
        ),
{
    let lines = seq![
        "📦 Repo subscriptions in this channel ("@ + number::decimal(list.len()) + ")"@,
    ] + git_cmds::list_lines(list) + seq!["\nUse !git remove <number|slug> to unsubscribe."@];
    let line = git_cmds::list_line(i, list[i]);
    assert(lines[1 + i] == line);
    text::lemma_joined_holds(lines, "\n"@, 1 + i);
    let mark = match list[i].host {
        RepoHost::GitHub => "🐙"@,
        RepoHost::GitLab => "🦊"@,
    };
    let p = number::decimal((i + 1) as nat) + ". "@ + mark + " "@ + list[i].full_slug;
    let end = if list[i].last_commit_sha is None {
        " (initializing…)"@
    } else {
        ""@
    };
    let tail = " — "@ + list[i].host.url() + end;
    let none = Seq::<char>::empty();
    assert(line =~= none + p + tail);
    text::lemma_substring_between(none, p, tail);
    text::lemma_substring_of_part(git_cmds::list_text(list), line, p);
    reveal_strlit("✅ Removed ");
    reveal_strlit("Removed ");
    let t = "✅ Removed "@;
    let slug = list[i].full_slug;
    let rest = " (was #"@ + number::decimal((i + 1) as nat) + ")"@;
    assert(t =~= t.take(2) + "Removed "@);
    assert(t + slug + " (was #"@ + number::decimal((i + 1) as nat) + ")"@ =~= t.take(2) + ("Removed "@
        + slug) + rest);
    text::lemma_substring_between(t.take(2), "Removed "@ + slug, rest);
}

/// A number that no subscription stands under removes nothing.
pub proof fn law_other_numbers_remove_nothing(rows: Seq<SubView>, list: Seq<SubView>, n: nat)
    requires
        n == 0 || n > list.len(),
    ensures
        git_cmds::remove_numbered(rows, list, n).0 == rows,
{
}

/// A repository that is named is no longer followed in the channel, and every other row stays; what
/// is not named rightly removes nothing.
pub proof fn law_named_repository_is_removed(
    rows: Seq<SubView>,
    channel: Seq<char>,
    input: Seq<char>,
    s: SubView,
)
    ensures
        detect::parsed(input) is Err ==> git_cmds::remove_named(rows, channel, input).0 == rows,
        detect::parsed(input) matches Ok(p) ==> (git_cmds::remove_named(
            rows,
            channel,
            input,
        ).0.contains(s) <==> rows.contains(s) && !(s.channel_id == channel && s.host == p.host
            && s.owner == p.owner && s.repo == p.repo)),
{
    if detect::parsed(input) is Ok {
        let p = detect::parsed(input)->Ok_0;
        lemma_without_repo(rows, channel, p.host, p.owner, p.repo, s);
    }
}

#[verifier::rlimit(30)]
proof fn lemma_without_repo(
    rows: Seq<SubView>,
    channel: Seq<char>,
    host: RepoHost,
    owner: Seq<char>,
    repo: Seq<char>,
    s: SubView,
)
    ensures
        store::without_repo(rows, channel, host, owner, repo).contains(s) <==> rows.contains(s) && !(
        s.channel_id == channel && s.host == host && s.owner == owner && s.repo == repo),
    decreases rows.len(),
{
    if rows.len() > 0 {
        let init = rows.drop_last();
        let rest = store::without_repo(init, channel, host, owner, repo);
        let last = rows.last();
        lemma_without_repo(init, channel, host, owner, repo, s);
        assert(rows[rows.len() - 1] == last);
        if rows.contains(s) {
            let i = choose|i: int| 0 <= i < rows.len() && rows[i] == s;
            if i < init.len() {
                assert(init[i] == s);
            }
        }
        if init.contains(s) {
            let i = choose|i: int| 0 <= i < init.len() && init[i] == s;
            assert(rows[i] == s);
        }
        if !store::same_repo(last, channel, host, owner, repo) {
            let all = rest.push(last);
            assert(all[rest.len() as int] == last);
            if rest.contains(s) {
                let i = choose|i: int| 0 <= i < rest.len() && rest[i] == s;
                assert(all[i] == s);
            }
            if all.contains(s) {
                let i = choose|i: int| 0 <= i < all.len() && all[i] == s;
                if i < rest.len() {
                    assert(rest[i] == s);
                }
            }
        }
    }
}

/// What follows `!git` says what is done: `add`, `list`, `remove`, `rm` and `delete`, and `poll`;
/// nothing asks for the usage.
pub proof fn law_verbs_are_read(word: Seq<char>)
    ensures
        git_cmds::verb_of(word) is Add <==> word == "add"@,
        git_cmds::verb_of(word) is List <==> word == "list"@,
        git_cmds::verb_of(word) is Remove <==> word == "remove"@ || word == "rm"@ || word == "delete"@,
        git_cmds::verb_of(word) is Poll <==> word == "poll"@,
        git_cmds::verb_of(word) is Usage <==> word.len() == 0,
{
    reveal_strlit("add");
    reveal_strlit("list");
    reveal_strlit("remove");
    reveal_strlit("rm");
    reveal_strlit("delete");
    reveal_strlit("poll");
    reveal_strlit("");
    assert("list"@[0] == 'l' && "poll"@[0] == 'p' && "remove"@[0] == 'r' && "delete"@[0] == 'd');
    assert(word.len() == 0 ==> word =~= ""@);
}

/// What is added or removed is what stands behind the verb, and a number among it is read as one.
pub proof fn law_rest_is_what_is_meant(verb: Seq<char>, rest: Seq<char>, n: nat)
    requires
        verb.len() > 0,
        text::unspaced(verb),
        rest.len() > 0,
        text::trimmed(rest) == rest,
        n <= usize::MAX,
    ensures
        git_cmds::rest_of(verb.push(' ') + rest) == rest,
        git_cmds::named_number(number::decimal(n)) == Some(n),
{
    let all = verb.push(' ') + rest;
    let none = Seq::<char>::empty();
    text::law_first_word_is_cut(verb, ' ', rest);
    text::law_trimmed_has_bare_ends(rest);
    assert(none + all + none =~= all);
    assert(all[0] == verb[0] && all.last() == rest.last());
    text::lemma_trim_around(none, all, none);
    let d = number::decimal(n);
    number::lemma_decimal_digits(n);
    assert(number::is_digit(d[0]) && number::is_digit(d[d.len() - 1]));
    assert(d[d.len() - 1] == d.last());
    assert(none + d + none =~= d);
    text::lemma_trim_around(none, d, none);
    number::law_decimal_round_trip(n, usize::MAX as nat);
}

/// Without a monitor nothing is done, and where something was asked that needs one this is said.
pub proof fn law_no_monitor_does_nothing(verb: Seq<char>, rest: Seq<char>)
    requires
        verb == "add"@ || verb == "remove"@ || verb == "list"@ || verb == "poll"@,
        rest.len() > 0,
        text::trimmed(rest) == rest,
    ensures
        git_cmds::answer_when_off(verb.push(' ') + rest) == "⚠️ Git monitor is not initialized."@,
{
    reveal_strlit("add");
    reveal_strlit("list");
    reveal_strlit("remove");
    reveal_strlit("poll");
    law_rest_is_what_is_meant(verb, rest, 0);
    law_verbs_are_read(verb);
    let all = verb.push(' ') + rest;
    let none = Seq::<char>::empty();
    text::law_first_word_is_cut(verb, ' ', rest);
    text::law_trimmed_has_bare_ends(rest);
    assert(none + all + none =~= all);
    assert(all[0] == verb[0] && all.last() == rest.last());
    text::lemma_trim_around(none, all, none);
    assert("list"@[0] == 'l' && "poll"@[0] == 'p' && "remove"@[0] == 'r' && "add"@[0] == 'a');
}

/// A host has its own address, its own label and its own mark.
pub proof fn law_hosts_differ()
    ensures
        RepoHost::GitHub.url() == "https://github.com"@,
        RepoHost::GitLab.url() == "https://gitlab.com"@,
        git_cmds::host_label(RepoHost::GitHub) == "GitHub"@,
        git_cmds::host_label(RepoHost::GitLab) == "GitLab"@,
{
}

} // verus!
