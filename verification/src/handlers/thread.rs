//! Replies as threads.

use vstd::prelude::*;
use crate::config::FeaturesSection;
use crate::{keys, text};

verus! {

/// Whether a reply goes to a thread first: where threads are on and the message came from a
/// community.
pub fn reply_as_thread(features: &FeaturesSection, is_group: bool) -> (r: bool)
    ensures
        r == (features.thread_replies && is_group),
{
    features.thread_replies && is_group
}

/// What follows an attempt to send a reply to a thread.
#[derive(Debug, Clone, Copy, PartialEq, Eq, Structural)]
pub enum ThreadStep {
    /// It was sent.
    Done,
    /// The community is caught up with and the reply is sent once more.
    Retry,
    /// The reply goes to the channel instead.
    PlainReply,
}

/// What follows the attempt of a number, counted from one: the first one that fails is repeated.
pub open spec fn step_after(attempt: int, sent: bool) -> ThreadStep {
    if sent {
        ThreadStep::Done
    } else if attempt <= 1 {
        ThreadStep::Retry
    } else {
        ThreadStep::PlainReply
    }
}

/// Decides what follows the attempt of a number, counted from one.
pub fn after_attempt(attempt: u32, sent: bool) -> (r: ThreadStep)
    ensures
        r == step_after(attempt as int, sent),
{
    if sent {
        ThreadStep::Done
    } else if attempt <= 1 {
        ThreadStep::Retry
    } else {
        ThreadStep::PlainReply
    }
}

/// How a reply ends whose attempts from that of a number on turn out as `sent` says.
pub open spec fn threaded_end(sent: spec_fn(int) -> bool, attempt: int) -> ThreadStep
    decreases 2 - attempt,
{
    if step_after(attempt, sent(attempt)) == ThreadStep::Retry {
        threaded_end(sent, attempt + 1)
    } else {
        step_after(attempt, sent(attempt))
    }
}

/// However its attempts turn out, a reply ends in a thread where the first or the second was
/// sent, and else in the channel: it is tried no third time.
pub proof fn law_reply_is_tried_twice(sent: spec_fn(int) -> bool)
    ensures
        threaded_end(sent, 1) == if sent(1) || sent(2) {
            ThreadStep::Done
        } else {
            ThreadStep::PlainReply
        },
{
    reveal_with_fuel(threaded_end, 2);
}

/// What is found out, step by step, on the way of a comment.
pub enum CommentCheck<'a> {
    /// Whether the bot has a key of its own.
    Identity(bool),
    /// The community that a channel belongs to, if any, or an error.
    Owner(Result<Option<&'a str>, &'a str>),
    /// Whether that community is known, or an error.
    Community(Result<bool, &'a str>),
    /// Whether it was dissolved.
    Dissolved(bool),
    /// Who is banned from it, and the bot's key.
    Banned(&'a Vec<String>, &'a str),
    /// The channel in it, if it is there: whether it is private, and whether its key is there.
    Channel(Option<(bool, bool)>),
    /// The author of the message that is answered, if known.
    Author(Option<&'a str>),
    /// The id of the comment that was built, if it has one.
    Built(Option<&'a str>),
    /// Whether it was sealed, or an error.
    Sealed(Result<(), &'a str>),
    /// Whether the bot is logged in.
    Client(bool),
    /// Whether the relays took it, or an error.
    Published(Result<(), &'a str>),
}

/// The key of the author of a message, in hexadecimal.
pub open spec fn author_key(npub: Option<Seq<char>>) -> Option<Seq<char>> {
    match npub {
        Some(n) => match keys::public_key_hex(n) {
            Some(k) => if k.len() > 0 {
                Some(k)
            } else {
                None
            },
            None => None,
        },
        None => None,
    }
}

/// Finds the key of the author of a message.
pub fn parent_author(npub: Option<&str>) -> (r: Option<String>)
    ensures
        text::opt_view(r) == author_key(text::opt_str_view(npub)),
{
    if let Some(n) = npub {
        if let Some(k) = keys::parse_public_key(n) {
            if !k.as_str().is_empty() {
                return Some(k);
            }
        }
    }
    None
}

/// Why a comment goes no further after a check, if it does not.
pub open spec fn comment_error(check: CommentCheck) -> Option<Seq<char>> {
    match check {
        CommentCheck::Identity(known) => if known {
            None
        } else {
            Some("no local identity key"@)
        },
        CommentCheck::Owner(found) => match found {
            Ok(Some(_)) => None,
            Ok(None) => Some("no community owns this channel"@),
            Err(e) => Some("community_id_for_channel: "@ + e@),
        },
        CommentCheck::Community(found) => match found {
            Ok(true) => None,
            Ok(false) => Some("v2 community not found"@),
            Err(e) => Some("load_community_v2: "@ + e@),
        },
        CommentCheck::Dissolved(gone) => if gone {
            Some("community has been dissolved"@)
        } else {
            None
        },
        CommentCheck::Banned(list, me) => if text::views(list@).contains(me@) {
            Some("you are banned from this community"@)
        } else {
            None
        },
        CommentCheck::Channel(found) => match found {
            None => Some("no such channel in this community"@),
            Some((private, has_key)) => if private && !has_key {
                Some("private channel has no key yet (awaiting rekey)"@)
            } else {
                None
            },
        },
        CommentCheck::Author(npub) => if author_key(text::opt_str_view(npub)) is None {
            Some("could not resolve parent message author"@)
        } else {
            None
        },
        CommentCheck::Built(id) => if id is None {
            Some("rumor has no id"@)
        } else {
            None
        },
        CommentCheck::Sealed(done) => match done {
            Ok(_) => None,
            Err(e) => Some("seal_chat_rumor: "@ + e@),
        },
        CommentCheck::Client(there) => if there {
            None
        } else {
            Some("not logged in"@)
        },
        CommentCheck::Published(done) => match done {
            Ok(_) => None,
            Err(e) => Some("publish failed: "@ + e@),
        },
    }
}

/// Judges what was found out on the way of a comment: why it goes no further, if it does not.
pub fn check_comment(check: &CommentCheck) -> (r: Option<String>)
    ensures
        text::opt_view(r) == comment_error(*check),
{
    match check {
        CommentCheck::Identity(known) => if *known {
            None
        } else {
            Some("no local identity key".to_owned())
        },
        CommentCheck::Owner(found) => match found {
            Ok(Some(_)) => None,
            Ok(None) => Some("no community owns this channel".to_owned()),
            Err(e) => Some(text::cat2("community_id_for_channel: ", e)),
        },
        CommentCheck::Community(found) => match found {
            Ok(true) => None,
            Ok(false) => Some("v2 community not found".to_owned()),
            Err(e) => Some(text::cat2("load_community_v2: ", e)),
        },
        CommentCheck::Dissolved(gone) => if *gone {
            Some("community has been dissolved".to_owned())
        } else {
            None
        },
        CommentCheck::Banned(list, me) => if text::list_contains(list, me) {
            Some("you are banned from this community".to_owned())
        } else {
            None
        },
        CommentCheck::Channel(found) => match found {
            None => Some("no such channel in this community".to_owned()),
            Some((private, has_key)) => if *private && !*has_key {
                Some("private channel has no key yet (awaiting rekey)".to_owned())
            } else {
                None
            },
        },
        CommentCheck::Author(npub) => if parent_author(*npub).is_none() {
            Some("could not resolve parent message author".to_owned())
        } else {
            None
        },
        CommentCheck::Built(id) => if id.is_none() {
            Some("rumor has no id".to_owned())
        } else {
            None
        },
        CommentCheck::Sealed(done) => match done {
            Ok(_) => None,
            Err(e) => Some(text::cat2("seal_chat_rumor: ", e)),
        },
        CommentCheck::Client(there) => if *there {
            None
        } else {
            Some("not logged in".to_owned())
        },
        CommentCheck::Published(done) => match done {
            Ok(_) => None,
            Err(e) => Some(text::cat2("publish failed: ", e)),
        },
    }
}

/// What a comment waits for.
pub enum CommentStage {
    Identity,
    Owner,
    Community { id: String },
    Dissolved { id: String },
    Banned,
    Channel,
    Author,
    Built,
    Sealed { comment: String },
    Client { comment: String },
    Published { comment: String },
    Done,
}

/// What a comment waits for, by its views.
pub enum CommentStageView {
    Identity,
    Owner,
    Community { id: Seq<char> },
    Dissolved { id: Seq<char> },
    Banned,
    Channel,
    Author,
    Built,
    Sealed { comment: Seq<char> },
    Client { comment: Seq<char> },
    Published { comment: Seq<char> },
    Done,
}

impl View for CommentStage {
    type V = CommentStageView;

    open spec fn view(&self) -> CommentStageView {
        match self {
            CommentStage::Identity => CommentStageView::Identity,
            CommentStage::Owner => CommentStageView::Owner,
            CommentStage::Community { id } => CommentStageView::Community { id: id@ },
            CommentStage::Dissolved { id } => CommentStageView::Dissolved { id: id@ },
            CommentStage::Banned => CommentStageView::Banned,
            CommentStage::Channel => CommentStageView::Channel,
            CommentStage::Author => CommentStageView::Author,
            CommentStage::Built => CommentStageView::Built,
            CommentStage::Sealed { comment } => CommentStageView::Sealed { comment: comment@ },
            CommentStage::Client { comment } => CommentStageView::Client { comment: comment@ },
            CommentStage::Published { comment } => CommentStageView::Published {
                comment: comment@,
            },
            CommentStage::Done => CommentStageView::Done,
        }
    }
}

/// What to do next about a comment.
pub enum CommentAction {
    /// Find the bot's own key.
    FindKey,
    /// Find the community that the channel belongs to.
    FindCommunity,
    /// Load the community of an id.
    LoadCommunity(String),
    /// Ask whether the community of an id was dissolved.
    AskDissolved(String),
    /// Ask who is banned from the community of an id.
    AskBanned(String),
    /// Find the channel in the community.
    FindChannel,
    /// Find the author of the message that is answered.
    FindAuthor,
    /// Build the comment on a message of the author with a key.
    Build(String),
    /// Seal the comment.
    Seal,
    /// Find the connection to the relays.
    FindClient,
    /// Send the comment to the relays.
    Send,
    /// The comment with an id was sent.
    Sent(String),
    /// No comment is sent, for a reason.
    Fail(String),
}

/// What to do next about a comment, by its views.
pub enum CommentActionView {
    FindKey,
    FindCommunity,
    LoadCommunity(Seq<char>),
    AskDissolved(Seq<char>),
    AskBanned(Seq<char>),
    FindChannel,
    FindAuthor,
    Build(Seq<char>),
    Seal,
    FindClient,
    Send,
    Sent(Seq<char>),
    Fail(Seq<char>),
}

impl View for CommentAction {
    type V = CommentActionView;

    open spec fn view(&self) -> CommentActionView {
        match self {
            CommentAction::FindKey => CommentActionView::FindKey,
            CommentAction::FindCommunity => CommentActionView::FindCommunity,
            CommentAction::LoadCommunity(id) => CommentActionView::LoadCommunity(id@),
            CommentAction::AskDissolved(id) => CommentActionView::AskDissolved(id@),
            CommentAction::AskBanned(id) => CommentActionView::AskBanned(id@),
            CommentAction::FindChannel => CommentActionView::FindChannel,
            CommentAction::FindAuthor => CommentActionView::FindAuthor,
            CommentAction::Build(key) => CommentActionView::Build(key@),
            CommentAction::Seal => CommentActionView::Seal,
            CommentAction::FindClient => CommentActionView::FindClient,
            CommentAction::Send => CommentActionView::Send,
            CommentAction::Sent(id) => CommentActionView::Sent(id@),
            CommentAction::Fail(why) => CommentActionView::Fail(why@),
        }
    }
}

impl CommentStageView {
    /// How many checks a comment has passed that waits for this.
    pub open spec fn passed(self) -> int {
        match self {
            CommentStageView::Identity => 0,
            CommentStageView::Owner => 1,
            CommentStageView::Community { .. } => 2,
            CommentStageView::Dissolved { .. } => 3,
            CommentStageView::Banned => 4,
            CommentStageView::Channel => 5,
            CommentStageView::Author => 6,
            CommentStageView::Built => 7,
            CommentStageView::Sealed { .. } => 8,
            CommentStageView::Client { .. } => 9,
            CommentStageView::Published { .. } => 10,
            CommentStageView::Done => 11,
        }
    }
}

/// How many checks stand before a check.
pub open spec fn check_place(check: CommentCheck) -> int {
    match check {
        CommentCheck::Identity(_) => 0,
        CommentCheck::Owner(_) => 1,
        CommentCheck::Community(_) => 2,
        CommentCheck::Dissolved(_) => 3,
        CommentCheck::Banned(_, _) => 4,
        CommentCheck::Channel(_) => 5,
        CommentCheck::Author(_) => 6,
        CommentCheck::Built(_) => 7,
        CommentCheck::Sealed(_) => 8,
        CommentCheck::Client(_) => 9,
        CommentCheck::Published(_) => 10,
    }
}

/// What follows a check that was passed.
pub open spec fn comment_passes(stage: CommentStageView, found: CommentCheck) -> Option<
    (CommentStageView, CommentActionView),
> {
    match (stage, found) {
        (CommentStageView::Identity, CommentCheck::Identity(_)) => Some(
            (CommentStageView::Owner, CommentActionView::FindCommunity),
        ),
        (CommentStageView::Owner, CommentCheck::Owner(Ok(Some(id)))) => Some(
            (
                CommentStageView::Community { id: id@ },
                CommentActionView::LoadCommunity(id@),
            ),
        ),
        (CommentStageView::Community { id }, CommentCheck::Community(_)) => Some(
            (CommentStageView::Dissolved { id }, CommentActionView::AskDissolved(id)),
        ),
        (CommentStageView::Dissolved { id }, CommentCheck::Dissolved(_)) => Some(
            (CommentStageView::Banned, CommentActionView::AskBanned(id)),
        ),
        (CommentStageView::Banned, CommentCheck::Banned(_, _)) => Some(
            (CommentStageView::Channel, CommentActionView::FindChannel),
        ),
        (CommentStageView::Channel, CommentCheck::Channel(_)) => Some(
            (CommentStageView::Author, CommentActionView::FindAuthor),
        ),
        (CommentStageView::Author, CommentCheck::Author(npub)) => match author_key(
            text::opt_str_view(npub),
        ) {
            Some(key) => Some((CommentStageView::Built, CommentActionView::Build(key))),
            None => None,
        },
        (CommentStageView::Built, CommentCheck::Built(Some(id))) => Some(
            (CommentStageView::Sealed { comment: id@ }, CommentActionView::Seal),
        ),
        (CommentStageView::Sealed { comment }, CommentCheck::Sealed(_)) => Some(
            (CommentStageView::Client { comment }, CommentActionView::FindClient),
        ),
        (CommentStageView::Client { comment }, CommentCheck::Client(_)) => Some(
            (CommentStageView::Published { comment }, CommentActionView::Send),
        ),
        (CommentStageView::Published { comment }, CommentCheck::Published(_)) => Some(
            (CommentStageView::Done, CommentActionView::Sent(comment)),
        ),
        _ => None,
    }
}

/// One step of a comment: a check that fails ends it, one that is passed takes it on. Nothing
/// follows what was not waited for.
pub open spec fn comment_step(stage: CommentStageView, found: CommentCheck) -> Option<
    (CommentStageView, CommentActionView),
> {
    if stage.passed() != check_place(found) {
        None
    } else {
        match comment_error(found) {
            Some(why) => Some((CommentStageView::Done, CommentActionView::Fail(why))),
            None => comment_passes(stage, found),
        }
    }
}

/// The view of a step.
pub open spec fn step_view(step: Option<(CommentStage, CommentAction)>) -> Option<
    (CommentStageView, CommentActionView),
> {
    match step {
        Some((stage, action)) => Some((stage@, action@)),
        None => None,
    }
}

/// Where a comment begins.
pub fn comment_start() -> (r: (CommentStage, CommentAction))
    ensures
        r.0@ == CommentStageView::Identity,
        r.1@ == CommentActionView::FindKey,
{
    (CommentStage::Identity, CommentAction::FindKey)
}

/// Takes a comment one step further.
pub fn comment_next(stage: &CommentStage, found: CommentCheck) -> (r: Option<
    (CommentStage, CommentAction),
>)
    ensures
        step_view(r) == comment_step(stage@, found),
{
    let awaited = match (stage, &found) {
        (CommentStage::Identity, CommentCheck::Identity(_)) => true,
        (CommentStage::Owner, CommentCheck::Owner(_)) => true,
        (CommentStage::Community { .. }, CommentCheck::Community(_)) => true,
        (CommentStage::Dissolved { .. }, CommentCheck::Dissolved(_)) => true,
        (CommentStage::Banned, CommentCheck::Banned(_, _)) => true,
        (CommentStage::Channel, CommentCheck::Channel(_)) => true,
        (CommentStage::Author, CommentCheck::Author(_)) => true,
        (CommentStage::Built, CommentCheck::Built(_)) => true,
        (CommentStage::Sealed { .. }, CommentCheck::Sealed(_)) => true,
        (CommentStage::Client { .. }, CommentCheck::Client(_)) => true,
        (CommentStage::Published { .. }, CommentCheck::Published(_)) => true,
        _ => false,
    };
    if !awaited {
        return None;
    }
    if let Some(why) = check_comment(&found) {
        return Some((CommentStage::Done, CommentAction::Fail(why)));
    }
    match (stage, found) {
        (CommentStage::Identity, CommentCheck::Identity(_)) => Some(
            (CommentStage::Owner, CommentAction::FindCommunity),
        ),
        (CommentStage::Owner, CommentCheck::Owner(Ok(Some(id)))) => Some(
            (
                CommentStage::Community { id: id.to_owned() },
                CommentAction::LoadCommunity(id.to_owned()),
            ),
        ),
        (CommentStage::Community { id }, CommentCheck::Community(_)) => Some(
            (
                CommentStage::Dissolved { id: id.clone() },
                CommentAction::AskDissolved(id.clone()),
            ),
        ),
        (CommentStage::Dissolved { id }, CommentCheck::Dissolved(_)) => Some(
            (CommentStage::Banned, CommentAction::AskBanned(id.clone())),
        ),
        (CommentStage::Banned, CommentCheck::Banned(_, _)) => Some(
            (CommentStage::Channel, CommentAction::FindChannel),
        ),
        (CommentStage::Channel, CommentCheck::Channel(_)) => Some(
            (CommentStage::Author, CommentAction::FindAuthor),
        ),
        (CommentStage::Author, CommentCheck::Author(npub)) => match parent_author(npub) {
            Some(key) => Some((CommentStage::Built, CommentAction::Build(key))),
            None => None,
        },
        (CommentStage::Built, CommentCheck::Built(Some(id))) => Some(
            (CommentStage::Sealed { comment: id.to_owned() }, CommentAction::Seal),
        ),
        (CommentStage::Sealed { comment }, CommentCheck::Sealed(_)) => Some(
            (CommentStage::Client { comment: comment.clone() }, CommentAction::FindClient),
        ),
        (CommentStage::Client { comment }, CommentCheck::Client(_)) => Some(
            (CommentStage::Published { comment: comment.clone() }, CommentAction::Send),
        ),
        (CommentStage::Published { comment }, CommentCheck::Published(_)) => Some(
            (CommentStage::Done, CommentAction::Sent(comment.clone())),
        ),
        _ => None,
    }
}

/// Where a comment stands after checks, from its beginning on.
pub open spec fn comment_run(checks: Seq<CommentCheck>) -> Option<
    (CommentStageView, CommentActionView),
>
    decreases checks.len(),
{
    if checks.len() == 0 {
        Some((CommentStageView::Identity, CommentActionView::FindKey))
    } else {
        match comment_run(checks.drop_last()) {
            Some((stage, _)) => comment_step(stage, checks.last()),
            None => None,
        }
    }
}

/// What is done about a comment after checks.
pub open spec fn comment_does(checks: Seq<CommentCheck>) -> Option<CommentActionView> {
    match comment_run(checks) {
        Some((_, action)) => Some(action),
        None => None,
    }
}

/// Whether checks are the first ones of a comment, in order, each of them passed.
pub open spec fn all_passed(checks: Seq<CommentCheck>) -> bool {
    forall|i: int|
        0 <= i < checks.len() ==> check_place(#[trigger] checks[i]) == i && comment_error(
            checks[i],
        ) is None
}

/// A comment is sent to the relays where every check before that was made, in order, and was
/// passed, and only there.
pub proof fn law_comment_is_sent_after_every_check(checks: Seq<CommentCheck>)
    ensures
        comment_does(checks) == Some(CommentActionView::Send) <==> checks.len() == 10 && all_passed(
            checks,
        ),
        comment_does(checks) is Some && comment_does(checks)->0 is Sent <==> checks.len() == 11
            && all_passed(checks),
{
    lemma_comment_run(checks);
}

/// The first check that fails ends a comment with its reason, and nothing follows it.
pub proof fn law_failed_check_ends_a_comment(
    passed: Seq<CommentCheck>,
    failed: CommentCheck,
    more: CommentCheck,
)
    requires
        all_passed(passed),
        check_place(failed) == passed.len(),
        comment_error(failed) is Some,
    ensures
        comment_run(passed.push(failed)) == Some(
            (CommentStageView::Done, CommentActionView::Fail(comment_error(failed)->0)),
        ),
        comment_run(passed.push(failed).push(more)) is None,
{
    lemma_comment_run(passed);
    assert(passed.push(failed).drop_last() =~= passed);
    assert(passed.push(failed).push(more).drop_last() =~= passed.push(failed));
}

/// What is asked of a community is asked of the one that the channel was found to belong to, the
/// comment is built for the author who was found, and its id is the one that it was built with.
pub proof fn law_comment_keeps_what_was_found(checks: Seq<CommentCheck>)
    ensures
        match comment_does(checks) {
            Some(CommentActionView::LoadCommunity(id)) => owner_found(checks[1]) == Some(id),
            Some(CommentActionView::AskDissolved(id)) => owner_found(checks[1]) == Some(id),
            Some(CommentActionView::AskBanned(id)) => owner_found(checks[1]) == Some(id),
            Some(CommentActionView::Build(key)) => author_found(checks[6]) == Some(key),
            Some(CommentActionView::Sent(id)) => comment_built(checks[7]) == Some(id),
            _ => true,
        },
{
    lemma_comment_run(checks);
}

/// The community that a check found, if it found one.
pub open spec fn owner_found(check: CommentCheck) -> Option<Seq<char>> {
    match check {
        CommentCheck::Owner(Ok(Some(id))) => Some(id@),
        _ => None,
    }
}

/// The key of the author that a check found, if it found one.
pub open spec fn author_found(check: CommentCheck) -> Option<Seq<char>> {
    match check {
        CommentCheck::Author(npub) => author_key(text::opt_str_view(npub)),
        _ => None,
    }
}

/// The id of the comment that was built, if it has one.
pub open spec fn comment_built(check: CommentCheck) -> Option<Seq<char>> {
    match check {
        CommentCheck::Built(Some(id)) => Some(id@),
        _ => None,
    }
}

/// Whether a comment stands at a stage, and does an action, that its checks led to.
spec fn led_to(
    checks: Seq<CommentCheck>,
    stage: CommentStageView,
    action: CommentActionView,
) -> bool {
    let n = checks.len() as int;
    if action is Fail {
        &&& stage is Done
        &&& n > 0
        &&& !all_passed(checks)
    } else {
        &&& stage.passed() == n
        &&& all_passed(checks)
        &&& action is Send <==> n == 10
        &&& action is Sent <==> n == 11
        &&& match stage {
            CommentStageView::Community { id } => owner_found(checks[1]) == Some(id) && action
                == CommentActionView::LoadCommunity(id),
            CommentStageView::Dissolved { id } => owner_found(checks[1]) == Some(id) && action
                == CommentActionView::AskDissolved(id),
            CommentStageView::Banned => action is AskBanned && owner_found(checks[1]) == Some(
                action->AskBanned_0,
            ),
            CommentStageView::Built => action is Build && author_found(checks[6]) == Some(
                action->Build_0,
            ),
            CommentStageView::Sealed { comment } => action is Seal && comment_built(checks[7])
                == Some(comment),
            CommentStageView::Client { comment } => action is FindClient && comment_built(checks[7])
                == Some(comment),
            CommentStageView::Published { comment } => action is Send && comment_built(checks[7])
                == Some(comment),
            CommentStageView::Done => action is Sent && comment_built(checks[7]) == Some(
                action->Sent_0,
            ),
            CommentStageView::Identity => action is FindKey,
            CommentStageView::Owner => action is FindCommunity,
            CommentStageView::Channel => action is FindChannel,
            CommentStageView::Author => action is FindAuthor,
        }
    }
}

proof fn lemma_comment_run(checks: Seq<CommentCheck>)
    ensures
        all_passed(checks) ==> comment_run(checks) is Some,
        match comment_run(checks) {
            Some((stage, action)) => led_to(checks, stage, action),
            None => true,
        },
    decreases checks.len(),
{
    if checks.len() > 0 {
        let init = checks.drop_last();
        let last = checks.last();
        lemma_comment_run(init);
        assert forall|i: int| 0 <= i < init.len() implies #[trigger] init[i] == checks[i] by {}
        assert(checks[checks.len() - 1] == last);
        if all_passed(checks) {
            assert forall|i: int| 0 <= i < init.len() implies check_place(#[trigger] init[i]) == i
                && comment_error(init[i]) is None by {
                assert(check_place(checks[i]) == i);
            }
            assert(check_place(last) == init.len());
        }
        if comment_run(init) is Some {
            let (stage, action) = comment_run(init)->0;
            if comment_run(checks) is Some && comment_error(last) is None && all_passed(init) {
                assert forall|i: int| 0 <= i < checks.len() implies check_place(#[trigger] checks[i])
                    == i && comment_error(checks[i]) is None by {
                    if i < init.len() {
                        assert(check_place(init[i]) == i);
                    }
                }
            }
        }
    }
}

/// The seconds of a time in milliseconds.
pub fn whole_seconds(millis: u64) -> (r: u64)
    ensures
        r == millis / 1000,
{
    millis / 1000
}

} // verus!
