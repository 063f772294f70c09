//! What holds of how commits and releases are written.

use vstd::prelude::*;
use crate::git_monitor;
use crate::git_monitor::format::{CommitView, ReleaseView};
use crate::{number, text};

verus! {

/// An id is shown by its first seven characters.
pub proof fn law_ids_are_shortened(sha: Seq<char>)
    ensures
        sha.len() > 7 ==> git_monitor::format::sha_shortened(sha) == sha.take(7),
        sha.len() <= 7 ==> git_monitor::format::sha_shortened(sha) == sha,
{
}

/// An author is shown by the first name and the initial of the last, whatever stands between; one of
/// a single name by its first fifteen characters; and one without a name as unknown.
pub proof fn law_authors_are_shortened(first: Seq<char>, middle: Seq<char>, last: Seq<char>)
    requires
        first.len() > 0,
        last.len() > 0,
        text::unspaced(first),
        text::unspaced(last),
    ensures
        git_monitor::format::author_shortened(first.push(' ') + last) == first + " "@ + last.take(1) + "."@,
        git_monitor::format::author_shortened(first.push(' ') + (middle.push(' ') + last)) == first + " "@
            + last.take(1) + "."@,
        first.len() <= 15 ==> git_monitor::format::author_shortened(first) == first,
        first.len() > 15 ==> git_monitor::format::author_shortened(first) == first.take(15),
        git_monitor::format::author_shortened(Seq::empty()) == "Unknown"@,
{
    let none = Seq::<char>::empty();
    assert(first[first.len() - 1] == first.last() && last[last.len() - 1] == last.last());
    text::law_words_are_counted(none, ' ', first);
    text::law_words_are_counted(none, ' ', last);
    text::law_words_are_counted(middle, ' ', last);
    text::law_words_add_up(first, ' ', last);
    text::law_words_add_up(first, ' ', middle.push(' ') + last);
    let two = first.push(' ') + last;
    let many = first.push(' ') + (middle.push(' ') + last);
    assert(none + two + none =~= two);
    assert(two[0] == first[0] && two.last() == last.last());
    text::lemma_trim_around(none, two, none);
    assert(none + many + none =~= many);
    assert(many[0] == first[0] && many.last() == last.last());
    text::lemma_trim_around(none, many, none);
    assert(none + first + none =~= first);
    text::lemma_trim_around(none, first, none);
    assert(text::trimmed(none) =~= none);
    assert(text::words(two) =~= seq![first, last]);
    assert(text::words(many)[0] == first);
    assert(text::words(many).last() == last);
    if last.len() <= 1 {
        assert(last.take(1) =~= last);
    }
}

/// The age of a commit is told in whole minutes within an hour, in whole hours within a day, and in
/// whole days from then on.
pub proof fn law_age_is_told(then: i64, now: i64, n: nat, rest: nat)
    ensures
        n < 60 && rest < 60 && now - then == n * 60 + rest ==> git_monitor::format::age_text(Some(then), now)
            == number::decimal(n) + " min ago"@,
        1 <= n < 24 && rest < 3600 && now - then == n * 3600 + rest ==> git_monitor::format::age_text(
            Some(then),
            now,
        ) == number::decimal(n) + "h ago"@,
        1 <= n && rest < 86400 && now - then == n * 86400 + rest ==> git_monitor::format::age_text(Some(then), now)
            == number::decimal(n) + "d ago"@,
        then > now ==> git_monitor::format::age_text(Some(then), now) == "just now"@,
        git_monitor::format::age_text(None, now) == "unknown time"@,
{
}

/// The notes of a release are trimmed and cut at two hundred characters.
pub proof fn law_notes_are_cut(r: ReleaseView, notes: Seq<char>)
    requires
        r.body == Some(notes),
        text::ascii_only(text::trimmed(notes)),
    ensures
        git_monitor::format::notes_cuttable(r),
        text::trimmed(notes).len() <= 200 ==> git_monitor::format::release_notes(r) == text::trimmed(notes),
        text::trimmed(notes).len() > 200 ==> git_monitor::format::release_notes(r) == text::trimmed(notes).take(200)
            + "…"@,
{
    let t = text::trimmed(notes);
    text::lemma_ascii_bytes(t, t.len() as int);
    if t.len() > 200 {
        text::lemma_ascii_bytes(t, 200);
    }
}

/// The title of a release is shown where it says more than the tag.
pub proof fn law_title_is_shown(r: ReleaseView, name: Seq<char>)
    requires
        r.name == Some(name),
    ensures
        name.len() > 0 && name != r.tag ==> text::has_substring(
            git_monitor::format::release_title(r),
            seq!['"'] + name + seq!['"'],
        ),
        name == r.tag || name.len() == 0 ==> git_monitor::format::release_title(r).len() == 0,
{
    if name.len() > 0 && name != r.tag {
        reveal_strlit("\"");
        reveal_strlit("\"\n");
        let p = seq!['"'] + name + seq!['"'];
        let none = Seq::<char>::empty();
        assert("\""@ + name + "\"\n"@ =~= none + p + seq!['\n']);
        text::lemma_substring_between(none, p, seq!['\n']);
    }
}

/// Each commit of a list is told by its short id, its first line and its author.
pub proof fn law_commit_lines_tell_each(commits: Seq<CommitView>, n: int, i: int)
    requires
        0 <= i < n <= commits.len(),
    ensures
        git_monitor::format::commit_lines(commits, n).len() == n,
        git_monitor::format::commit_lines(commits, n)[i] == "• "@ + git_monitor::format::sha_shortened(commits[i].sha) + " "@
            + git_monitor::format::headline(commits[i].message) + " — "@ + git_monitor::format::author_shortened(
            commits[i].author,
        ),
    decreases n,
{
    lemma_lines_len(commits, n - 1);
    if i < n - 1 {
        law_commit_lines_tell_each(commits, n - 1, i);
    }
}

proof fn lemma_lines_len(commits: Seq<CommitView>, n: int)
    requires
        0 <= n,
    ensures
        git_monitor::format::commit_lines(commits, n).len() == n,
    decreases n,
{
    if n > 0 {
        lemma_lines_len(commits, n - 1);
    }
}

} // verus!
