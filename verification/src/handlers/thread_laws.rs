//! What holds of the checks that a comment in a thread goes through.

use vstd::prelude::*;
use crate::handlers::thread;
use crate::handlers::thread::{CommentCheck, ThreadStep};
use crate::{keys, text};

verus! {

/// The checks come in this order: the bot's key, the community of the channel, whether it is known,
/// dissolved and open to the bot, the channel, the author, the comment, its seal, the connection, and
/// the relays' answer.
pub proof fn law_checks_come_in_order(
    flag: bool,
    owner: Result<Option<&str>, &str>,
    known: Result<bool, &str>,
    banned: &Vec<String>,
    me: &str,
    channel: Option<(bool, bool)>,
    who: Option<&str>,
    done: Result<(), &str>,
)
    ensures
        thread::check_place(CommentCheck::Identity(flag)) == 0,
        thread::check_place(CommentCheck::Owner(owner)) == 1,
        thread::check_place(CommentCheck::Community(known)) == 2,
        thread::check_place(CommentCheck::Dissolved(flag)) == 3,
        thread::check_place(CommentCheck::Banned(banned, me)) == 4,
        thread::check_place(CommentCheck::Channel(channel)) == 5,
        thread::check_place(CommentCheck::Author(who)) == 6,
        thread::check_place(CommentCheck::Built(who)) == 7,
        thread::check_place(CommentCheck::Sealed(done)) == 8,
        thread::check_place(CommentCheck::Client(flag)) == 9,
        thread::check_place(CommentCheck::Published(done)) == 10,
{
}

/// A comment needs a key, a community that owns the channel, is known, is not dissolved and has not
/// banned the bot, a channel that is open or whose key is there, an author whose key can be read, an
/// id, a seal, a connection and a relay that takes it.
pub proof fn law_which_checks_pass(
    flag: bool,
    owner: Result<Option<&str>, &str>,
    known: Result<bool, &str>,
    banned: &Vec<String>,
    me: &str,
    private: bool,
    has_key: bool,
    id: Option<&str>,
    done: Result<(), &str>,
)
    ensures
        thread::comment_error(CommentCheck::Identity(flag)) is None <==> flag,
        thread::comment_error(CommentCheck::Owner(owner)) is None <==> owner is Ok && owner->Ok_0
            is Some,
        thread::comment_error(CommentCheck::Community(known)) is None <==> known is Ok
            && known->Ok_0,
        thread::comment_error(CommentCheck::Dissolved(flag)) is None <==> !flag,
        thread::comment_error(CommentCheck::Banned(banned, me)) is None <==> !text::views(
            banned@,
        ).contains(me@),
        thread::comment_error(CommentCheck::Channel(None)) is Some,
        thread::comment_error(CommentCheck::Channel(Some((private, has_key)))) is None <==> !private
            || has_key,
        thread::comment_error(CommentCheck::Built(id)) is None <==> id is Some,
        thread::comment_error(CommentCheck::Sealed(done)) is None <==> done is Ok,
        thread::comment_error(CommentCheck::Client(flag)) is None <==> flag,
        thread::comment_error(CommentCheck::Published(done)) is None <==> done is Ok,
{
}

/// An author is one whose key can be read.
pub proof fn law_author_has_a_key(npub: &str)
    ensures
        thread::comment_error(CommentCheck::Author(None)) is Some,
        thread::comment_error(CommentCheck::Author(Some(npub))) is None <==> keys::public_key_hex(
            npub@,
        ) is Some && keys::public_key_hex(npub@)->0.len() > 0,
        keys::public_key_hex(npub@) matches Some(k) ==> (k.len() > 0 ==> thread::author_key(
            Some(npub@),
        ) == Some(k)),
{
}

/// What goes wrong is told with what was said about it.
pub proof fn law_reasons_are_told(e: &str)
    ensures
        thread::comment_error(CommentCheck::Owner(Err(e))) matches Some(t) && text::has_substring(
            t,
            e@,
        ),
        thread::comment_error(CommentCheck::Community(Err(e))) matches Some(t) && text::has_substring(
            t,
            e@,
        ),
        thread::comment_error(CommentCheck::Sealed(Err(e))) matches Some(t) && text::has_substring(
            t,
            e@,
        ),
        thread::comment_error(CommentCheck::Published(Err(e))) matches Some(t) && text::has_substring(
            t,
            e@,
        ),
{
    lemma_ends_with("community_id_for_channel: "@, e@);
    lemma_ends_with("load_community_v2: "@, e@);
    lemma_ends_with("seal_chat_rumor: "@, e@);
    lemma_ends_with("publish failed: "@, e@);
}

proof fn lemma_ends_with(head: Seq<char>, e: Seq<char>)
    ensures
        text::has_substring(head + e, e),
{
    let none = Seq::<char>::empty();
    text::lemma_substring_between(head, e, none);
    assert(head + e + none =~= head + e);
}

/// A reply that was sent is done with; one that was not is tried again after the first attempt, and
/// goes to the channel after a later one.
pub proof fn law_attempts_lead_on(attempt: int)
    ensures
        thread::step_after(attempt, true) is Done,
        attempt <= 1 ==> thread::step_after(attempt, false) == ThreadStep::Retry,
        attempt > 1 ==> thread::step_after(attempt, false) == ThreadStep::PlainReply,
{
}

} // verus!
