//! Nostr profiles, names and follow lists.

use vstd::prelude::*;
use crate::json::{Json, JsonView};
use crate::{json, nak, number, text};

verus! {

/// What the tool did.
pub enum Ran<'a> {
    Failed,
    TimedOut,
    /// It printed this.
    Output(&'a str),
}

// ---------------------------------------------------------------------------
// !nostr
// ---------------------------------------------------------------------------

/// The user that `!nostr` names, or how to use it.
pub fn nostr_command(args: &str) -> (r: Result<String, String>)
    ensures
        match r {
            Ok(input) => text::trimmed(args@).len() > 0 && input@ == text::trimmed(args@),
            Err(usage) => text::trimmed(args@).len() == 0 && usage@
                == "Usage: !nostr <npub>\nExample: !nostr npub1jrvdfzf9aglmkt3nzpm4y6x3tq056qwh5v6ge2x2g9wkx27j58gsj7nev5"@,
        },
{
    let input = text::trim(args);
    if input.is_empty() {
        Err(
            "Usage: !nostr <npub>\nExample: !nostr npub1jrvdfzf9aglmkt3nzpm4y6x3tq056qwh5v6ge2x2g9wkx27j58gsj7nev5".to_owned(),
        )
    } else {
        Ok(input.to_owned())
    }
}

/// What is said of a name that could not be resolved.
pub open spec fn unresolved(input: Seq<char>) -> Seq<char> {
    "⚠️ Could not resolve \""@ + input + "\". Make sure it's a valid npub or hex pubkey."@
}

/// What is said of a name that could not be resolved.
pub fn unresolved_reply(input: &str) -> (r: String)
    ensures
        r@ == unresolved(input@),
{
    text::cat3(
        "⚠️ Could not resolve \"",
        input,
        "\". Make sure it's a valid npub or hex pubkey.",
    )
}

/// What a lookup of a profile gave: the profile, or what to tell the user.
pub open spec fn looked_up(input: Seq<char>, ran: Ran) -> Result<JsonView, Seq<char>> {
    match ran {
        Ran::Failed => Err("⚠️ Could not reach Nostr relays. Try again later."@),
        Ran::TimedOut => Err("⚠️ Relay lookup timed out. Try again later."@),
        Ran::Output(o) => match nak::printed_event(o@) {
            Some(e) => Ok(nak::profile_in(e)),
            None => Err("🔍 No profile found for "@ + input),
        },
    }
}

/// Reads the profile that a lookup gave.
pub fn look_up(input: &str, ran: Ran) -> (r: Result<Json, String>)
    ensures
        match (looked_up(input@, ran), r) {
            (Ok(want), Ok(got)) => got@ == want,
            (Err(want), Err(got)) => got@ == want,
            _ => false,
        },
{
    match ran {
        Ran::Failed => Err("⚠️ Could not reach Nostr relays. Try again later.".to_owned()),
        Ran::TimedOut => Err("⚠️ Relay lookup timed out. Try again later.".to_owned()),
        Ran::Output(o) => match nak::first_event(o) {
            Some(e) => Ok(nak::read_profile(&e)),
            None => Err(text::cat2("🔍 No profile found for ", input)),
        },
    }
}

/// The name in a profile.
pub open spec fn profile_name(p: JsonView) -> Seq<char> {
    match p.text_at("name"@) {
        Some(n) => n,
        None => text::or_else(p.text_at("display_name"@), "Unknown"@),
    }
}

/// The description in a profile.
pub open spec fn profile_about(p: JsonView) -> Seq<char> {
    text::or_else(p.text_at("about"@), ""@)
}

/// Whether the description can be shown: at most two hundred bytes, or cut there.
pub open spec fn about_cuttable(p: JsonView) -> bool {
    text::byte_len(profile_about(p)) > 200 ==> text::at_boundary(profile_about(p), 200)
}

/// The description as it is shown.
pub open spec fn about_shown(p: JsonView) -> Seq<char> {
    let about = profile_about(p);
    if about.len() == 0 {
        ""@
    } else if text::byte_len(about) > 200 {
        "📝 "@ + (text::first_bytes(about, 200) + "..."@) + "\n"@
    } else {
        "📝 "@ + about + "\n"@
    }
}

/// A line of a profile, where there is something to show.
pub open spec fn profile_line(head: Seq<char>, what: Option<Seq<char>>, tail: Seq<char>) -> Seq<char> {
    match what {
        Some(s) => head + s + tail,
        None => ""@,
    }
}

/// A profile, for people to read.
pub open spec fn profile_text(p: JsonView, verified: bool) -> Seq<char> {
    text::trimmed(
        "👤 **"@ + profile_name(p) + "**\n"@ + about_shown(p) + profile_line(
            "🌐 NIP-05: "@,
            p.text_at("nip05"@),
            if verified {
                " ✅\n"@
            } else {
                " ❌\n"@
            },
        ) + profile_line("⚡ Lightning: "@, p.text_at("lud16"@), "\n"@) + profile_line(
            "🔗 "@,
            p.text_at("website"@),
            "\n"@,
        ) + profile_line("🖼️ "@, p.text_at("picture"@), ""@),
    )
}

fn show_about(p: &Json) -> (r: Option<String>)
    ensures
        match r {
            Some(s) => about_cuttable(p@) && s@ == about_shown(p@),
            None => !about_cuttable(p@),
        },
{
    let about = text::own_or(p.str_at("about"), "");
    let s = about.as_str();
    if text::len_bytes(s) > 200 {
        if !s.is_char_boundary(200) {
            return None;
        }
        let (head, _) = text::split_at_byte(s, 200);
        proof {
            if s@.len() == 0 {
                vstd::utf8::encode_utf8_decode_utf8(s@);
                assert(s@ =~= Seq::empty());
                assert(vstd::utf8::encode_utf8(s@).len() == 0);
            }
        }
        let cut = text::cat2(head, "...");
        return Some(text::cat3("📝 ", cut.as_str(), "\n"));
    }
    if s.is_empty() {
        Some("".to_owned())
    } else {
        Some(text::cat3("📝 ", s, "\n"))
    }
}

fn show_line(head: &str, what: Option<&str>, tail: &str) -> (r: String)
    ensures
        r@ == profile_line(head@, text::opt_str_view(what), tail@),
{
    match what {
        Some(s) => text::cat3(head, s, tail),
        None => "".to_owned(),
    }
}

/// The reply with a profile, given whether its NIP-05 name was verified. There is no reply where
/// the description cannot be cut.
pub fn profile_reply(p: &Json, verified: bool) -> (r: Option<String>)
    ensures
        text::opt_view(r) == if about_cuttable(p@) {
            Some(profile_text(p@, verified))
        } else {
            None
        },
{
    let about = match show_about(p) {
        Some(s) => s,
        None => {
            return None;
        },
    };
    let name = match p.str_at("name") {
        Some(n) => n.to_owned(),
        None => text::own_or(p.str_at("display_name"), "Unknown"),
    };
    let check = if verified {
        " ✅\n"
    } else {
        " ❌\n"
    };
    let mut out = text::cat4("👤 **", name.as_str(), "**\n", about.as_str());
    out.push_str(show_line("🌐 NIP-05: ", p.str_at("nip05"), check).as_str());
    out.push_str(show_line("⚡ Lightning: ", p.str_at("lud16"), "\n").as_str());
    out.push_str(show_line("🔗 ", p.str_at("website"), "\n").as_str());
    out.push_str(show_line("🖼️ ", p.str_at("picture"), "").as_str());
    Some(text::trim(out.as_str()).to_owned())
}

/// The address at which a name is verified, where it has the form `user@domain`.
pub open spec fn verification_url(nip05: Seq<char>) -> Option<Seq<char>> {
    match text::cut_once(nip05, '@') {
        Some((user, domain)) => Some(names_address(user, domain)),
        None => None,
    }
}

/// The address that a domain lists a user at.
pub open spec fn names_address(user: Seq<char>, domain: Seq<char>) -> Seq<char> {
    "https://"@ + domain + "/.well-known/nostr.json?name="@ + user
}

/// The address that a domain lists a user at.
pub fn names_url(user: &str, domain: &str) -> (r: String)
    ensures
        r@ == names_address(user@, domain@),
{
    text::cat4("https://", domain, "/.well-known/nostr.json?name=", user)
}

/// The address at which a name is verified.
pub fn nip05_url(nip05: &str) -> (r: Option<String>)
    ensures
        text::opt_view(r) == verification_url(nip05@),
{
    match text::split_once(nip05, '@') {
        Some((user, domain)) => Some(names_url(user, domain)),
        None => None,
    }
}

/// Whether a domain lists a name with a key, in whatever case.
pub open spec fn lists_key(data: JsonView, nip05: Seq<char>, hex: Seq<char>) -> bool {
    match text::cut_once(nip05, '@') {
        Some((user, _)) => match data.at("names"@).text_at(user) {
            Some(k) => text::str_lowercase(k) == text::str_lowercase(hex),
            None => false,
        },
        None => false,
    }
}

/// Whether a domain lists a name with a key.
pub fn verify_nip05(data: &Json, nip05: &str, hex: &str) -> (r: bool)
    ensures
        r == lists_key(data@, nip05@, hex@),
{
    match text::split_once(nip05, '@') {
        Some((user, _)) => match data.str_at2("names", user) {
            Some(k) => text::same(
                text::to_lowercase(k).as_str(),
                text::to_lowercase(hex).as_str(),
            ),
            None => false,
        },
        None => false,
    }
}

// ---------------------------------------------------------------------------
// !nip05
// ---------------------------------------------------------------------------

/// The user and the domain of a name, where neither is empty.
pub open spec fn name_parts(input: Seq<char>) -> Option<(Seq<char>, Seq<char>)> {
    match text::cut_once(input, '@') {
        Some((user, domain)) => if user.len() > 0 && domain.len() > 0 {
            Some((user, domain))
        } else {
            None
        },
        None => None,
    }
}

/// Cuts a name of the form `user@domain`.
pub fn split_name<'a>(input: &'a str) -> (r: Option<(&'a str, &'a str)>)
    ensures
        text::opt_pair_view(r) == name_parts(input@),
{
    match text::split_once(input, '@') {
        Some((user, domain)) => if user.is_empty() || domain.is_empty() {
            None
        } else {
            Some((user, domain))
        },
        None => None,
    }
}

/// Why a name is not looked up, if it is not.
pub open spec fn nip05_refusal(args: Seq<char>) -> Option<Seq<char>> {
    if text::trimmed(args).len() == 0 {
        Some("Usage: !nip05 <user@domain>\nExample: !nip05 derekross@nostrplebs.com"@)
    } else if name_parts(text::trimmed(args)) is None {
        Some(
            "⚠️ Invalid format. Use: user@domain\nExample: !nip05 derekross@nostrplebs.com"@,
        )
    } else {
        None
    }
}

/// The address that `!nip05` looks a name up at, or what to tell the user.
pub fn nip05_command(args: &str) -> (r: Result<String, String>)
    ensures
        match r {
            Ok(url) => nip05_refusal(args@) is None && match name_parts(text::trimmed(args@)) {
                Some((user, domain)) => url@ == names_address(user, domain),
                None => false,
            },
            Err(why) => nip05_refusal(args@) == Some(why@),
        },
{
    let input = text::trim(args);
    if input.is_empty() {
        return Err(
            "Usage: !nip05 <user@domain>\nExample: !nip05 derekross@nostrplebs.com".to_owned(),
        );
    }
    match split_name(input) {
        Some((user, domain)) => Ok(names_url(user, domain)),
        None => Err(
            "⚠️ Invalid format. Use: user@domain\nExample: !nip05 derekross@nostrplebs.com".to_owned(),
        ),
    }
}

/// The key that a domain lists a user with.
pub fn listed_key(data: &Json, user: &str) -> (r: Option<String>)
    ensures
        text::opt_view(r) == data@.at("names"@).text_at(user@),
{
    text::own_opt(data.str_at2("names", user))
}

/// The reply with the npub that a name stands for, or its key where it could not be encoded;
/// without either the name is not verified.
pub fn nip05_reply(input: &str, key: Option<&str>, npub: Option<&str>) -> (r: String)
    ensures
        r@ == match key {
            Some(k) => "✅ Verified: "@ + input@ + " → "@ + (match npub {
                Some(n) => n@,
                None => k@,
            }),
            None => "❌ Not verified: "@ + input@ + " not found"@,
        },
{
    match key {
        Some(k) => {
            let shown = match npub {
                Some(n) => n,
                None => k,
            };
            text::cat4("✅ Verified: ", input, " → ", shown)
        },
        None => text::cat3("❌ Not verified: ", input, " not found"),
    }
}

// ---------------------------------------------------------------------------
// !follow
// ---------------------------------------------------------------------------

/// The strings of a tag; what is no string counts as empty.
pub open spec fn tag_strings(tag: Seq<JsonView>) -> Seq<Seq<char>> {
    tag.map_values(|v: JsonView| text::or_else(v.text(), ""@))
}

/// Whether a tag names someone who is followed.
pub open spec fn is_follow(tag: JsonView) -> bool {
    tag.nth(0).text() == Some("p"@) && match tag.items() {
        Some(items) => items.len() >= 2,
        None => false,
    }
}

/// The tags that name who is followed.
pub open spec fn follows_in(tags: Seq<JsonView>) -> Seq<Seq<Seq<char>>>
    decreases tags.len(),
{
    if tags.len() == 0 {
        Seq::empty()
    } else if is_follow(tags.last()) {
        follows_in(tags.drop_last()).push(tag_strings(tags.last().items()->0))
    } else {
        follows_in(tags.drop_last())
    }
}

/// Who a contact list follows; nobody without one.
pub open spec fn contacts_in(event: Option<JsonView>) -> Seq<Seq<Seq<char>>> {
    match event {
        Some(e) => match e.at("tags"@).items() {
            Some(tags) => follows_in(tags),
            None => Seq::empty(),
        },
        None => Seq::empty(),
    }
}

fn strings_of(tag: &Vec<Json>) -> (r: Vec<String>)
    ensures
        text::views(r@) == tag_strings(json::json_views(tag@)),
{
    let ghost all = json::json_views(tag@);
    let mut out: Vec<String> = Vec::new();
    let mut i: usize = 0;
    while i < tag.len()
        invariant
            i <= tag.len(),
            out.len() == i,
            all == json::json_views(tag@),
            forall|k: int| 0 <= k < i ==> (#[trigger] out@[k])@ == text::or_else(all[k].text(), ""@),
        decreases tag.len() - i,
    {
        proof {
            assert(all[i as int] == tag@[i as int]@);
        }
        out.push(text::own_or(tag[i].as_str(), ""));
        i = i + 1;
    }
    proof {
        assert(text::views(out@) =~= tag_strings(all));
    }
    out
}

fn starts_with_p(tag: &Json) -> (r: bool)
    ensures
        r == (tag@.nth(0).text() == Some("p"@)),
{
    match tag.get_index(0) {
        Some(v) => match v.as_str() {
            Some(s) => text::same(s, "p"),
            None => false,
        },
        None => false,
    }
}

fn collect_follows(tags: &Vec<Json>) -> (r: Vec<Vec<String>>)
    ensures
        json::list_views(r@) == follows_in(json::json_views(tags@)),
{
    let ghost all = json::json_views(tags@);
    let mut out: Vec<Vec<String>> = Vec::new();
    let mut i: usize = 0;
    proof {
        assert(all.take(0) =~= Seq::empty());
        assert(json::list_views(out@) =~= Seq::empty());
    }
    while i < tags.len()
        invariant
            i <= tags.len(),
            all == json::json_views(tags@),
            json::list_views(out@) == follows_in(all.take(i as int)),
        decreases tags.len() - i,
    {
        let tag = &tags[i];
        let ghost before = json::list_views(out@);
        proof {
            assert(all.take(i + 1).drop_last() =~= all.take(i as int));
            assert(all.take(i + 1).last() == tag@);
        }
        if starts_with_p(tag) {
            if let Some(items) = tag.as_array() {
                let ghost seen = json::json_views(items@);
                proof {
                    assert(seen.len() == items.len());
                }
                if items.len() >= 2 {
                    let strings = strings_of(items);
                    let ghost written = text::views(strings@);
                    out.push(strings);
                    proof {
                        assert(json::list_views(out@) =~= before.push(written));
                    }
                }
            }
        }
        i = i + 1;
    }
    proof {
        assert(all.take(i as int) =~= all);
    }
    out
}

/// Reads who a contact list follows.
pub fn read_contacts(event: Option<&Json>) -> (r: Vec<Vec<String>>)
    ensures
        json::list_views(r@) == contacts_in(
            match event {
                Some(e) => Some(e@),
                None => None,
            },
        ),
{
    if let Some(e) = event {
        if let Some(value) = e.get("tags") {
            if let Some(tags) = value.as_array() {
                return collect_follows(tags);
            }
        }
    }
    let none: Vec<Vec<String>> = Vec::new();
    proof {
        assert(json::list_views(none@) =~= Seq::empty());
    }
    none
}

/// Whether a key is followed.
pub open spec fn is_followed(contacts: Seq<Seq<Seq<char>>>, hex: Seq<char>) -> bool {
    exists|i: int|
        0 <= i < contacts.len() && (#[trigger] contacts[i]).len() >= 2 && contacts[i][1] == hex
}

fn follows_already(contacts: &Vec<Vec<String>>, hex: &str) -> (r: bool)
    ensures
        r == is_followed(json::list_views(contacts@), hex@),
{
    let ghost all = json::list_views(contacts@);
    let mut i: usize = 0;
    while i < contacts.len()
        invariant
            i <= contacts.len(),
            all == json::list_views(contacts@),
            forall|k: int|
                0 <= k < i ==> !((#[trigger] all[k]).len() >= 2 && all[k][1] == hex@),
        decreases contacts.len() - i,
    {
        let tag = &contacts[i];
        let ghost strings = text::views(tag@);
        proof {
            assert(all[i as int] == strings);
            assert(strings.len() == tag.len());
        }
        if tag.len() >= 2 && text::same(tag[1].as_str(), hex) {
            proof {
                assert(strings[1] == tag@[1]@);
                assert(all[i as int].len() >= 2 && all[i as int][1] == hex@);
            }
            return true;
        }
        i = i + 1;
    }
    false
}

/// The contact list with a key after those that are followed.
pub open spec fn with_follow(contacts: Seq<Seq<Seq<char>>>, hex: Seq<char>) -> Seq<Seq<Seq<char>>> {
    contacts.push(Seq::empty().push("p"@).push(hex))
}

/// A contact list as an event to be signed.
pub open spec fn contact_event(contacts: Seq<Seq<Seq<char>>>) -> JsonView {
    JsonView::Object(
        Seq::empty().push(("kind"@, JsonView::Number(number::decimal(3)))).push(
            ("content"@, JsonView::Text(""@)),
        ).push(("tags"@, json::table_array(contacts))),
    )
}

fn build_contacts(contacts: &Vec<Vec<String>>) -> (r: Json)
    ensures
        r@ == contact_event(json::list_views(contacts@)),
{
    let mut m: Vec<(String, Json)> = Vec::new();
    proof {
        assert(json::member_views(m@) =~= Seq::empty());
    }
    json::add_member(&mut m, "kind", json::integer(3));
    json::add_member(&mut m, "content", json::string(""));
    json::add_member(&mut m, "tags", json::text_table(contacts));
    json::object(m)
}

/// How far a follow has come.
pub enum FollowStage {
    /// The user's key is looked up.
    Target,
    /// The bot's own key is looked up.
    Own { target: String },
    /// The bot's contact list is fetched.
    Contacts { target: String },
    /// The new contact list is published.
    Publish { total: usize },
    Done,
}

/// How far a follow has come.
pub enum FollowStageView {
    Target,
    Own { target: Seq<char> },
    Contacts { target: Seq<char> },
    Publish { total: nat },
    Done,
}

impl View for FollowStage {
    type V = FollowStageView;

    open spec fn view(&self) -> FollowStageView {
        match self {
            FollowStage::Target => FollowStageView::Target,
            FollowStage::Own { target } => FollowStageView::Own { target: target@ },
            FollowStage::Contacts { target } => FollowStageView::Contacts { target: target@ },
            FollowStage::Publish { total } => FollowStageView::Publish { total: *total as nat },
            FollowStage::Done => FollowStageView::Done,
        }
    }
}

/// What a follow does next.
pub enum FollowAction {
    /// Turn this name into a key.
    Resolve(String),
    /// Fetch the contact list of this key.
    FetchContacts(String),
    /// Sign and publish this event.
    Publish(Json),
    /// Say this, and be done.
    Reply(String),
}

/// What a follow does next.
pub enum FollowActionView {
    Resolve(Seq<char>),
    FetchContacts(Seq<char>),
    Publish(JsonView),
    Reply(Seq<char>),
}

impl View for FollowAction {
    type V = FollowActionView;

    open spec fn view(&self) -> FollowActionView {
        match self {
            FollowAction::Resolve(s) => FollowActionView::Resolve(s@),
            FollowAction::FetchContacts(s) => FollowActionView::FetchContacts(s@),
            FollowAction::Publish(j) => FollowActionView::Publish(j@),
            FollowAction::Reply(s) => FollowActionView::Reply(s@),
        }
    }
}

/// What came of a step of a follow.
pub enum FollowEvent<'a> {
    /// The key that a name stands for, if it does.
    Resolved(Option<&'a str>),
    Fetched(Ran<'a>),
    /// The tool could not be started for publishing.
    NotStarted,
    Published(Ran<'a>),
}

/// The first step of a follow, or what it says instead.
pub open spec fn follow_start(args: Seq<char>, has_nsec: bool) -> (FollowStageView, FollowActionView) {
    let input = text::trimmed(args);
    if input.len() == 0 {
        (
            FollowStageView::Done,
            FollowActionView::Reply(
                "Usage: !follow <npub>\nExample: !follow npub1jrvdfzf9aglmkt3nzpm4y6x3tq056qwh5v6ge2x2g9wkx27j58gsj7nev5"@,
            ),
        )
    } else if !has_nsec {
        (
            FollowStageView::Done,
            FollowActionView::Reply(
                "⚠️ Bot does not have an nsec configured. Cannot publish follow lists."@,
            ),
        )
    } else {
        (FollowStageView::Target, FollowActionView::Resolve(input))
    }
}

/// Starts `!follow`.
pub fn follow_command(args: &str, has_nsec: bool) -> (r: (FollowStage, FollowAction))
    ensures
        (r.0@, r.1@) == follow_start(args@, has_nsec),
{
    let input = text::trim(args);
    if input.is_empty() {
        return (
            FollowStage::Done,
            FollowAction::Reply(
                "Usage: !follow <npub>\nExample: !follow npub1jrvdfzf9aglmkt3nzpm4y6x3tq056qwh5v6ge2x2g9wkx27j58gsj7nev5".to_owned(),
            ),
        );
    }
    if !has_nsec {
        return (
            FollowStage::Done,
            FollowAction::Reply(
                "⚠️ Bot does not have an nsec configured. Cannot publish follow lists.".to_owned(),
            ),
        );
    }
    (FollowStage::Target, FollowAction::Resolve(input.to_owned()))
}

/// A follow that ends with an answer.
pub open spec fn follow_ends(s: Seq<char>) -> (FollowStageView, FollowActionView) {
    (FollowStageView::Done, FollowActionView::Reply(s))
}

/// What follows once the contact list was fetched.
pub open spec fn contacts_fetched(input: Seq<char>, target: Seq<char>, output: Seq<char>) -> (
    FollowStageView,
    FollowActionView,
) {
    let contacts = contacts_in(nak::printed_event(output));
    if is_followed(contacts, target) {
        follow_ends("ℹ️ Already following "@ + input + "."@)
    } else {
        (
            FollowStageView::Publish { total: contacts.len() + 1 },
            FollowActionView::Publish(contact_event(with_follow(contacts, target))),
        )
    }
}

/// What is said once a contact list was published.
pub open spec fn published_text(input: Seq<char>, total: nat, output: Seq<char>) -> Seq<char> {
    if text::has_substring(output, "\"id\""@) || text::has_substring(output, "published"@)
        || text::trimmed(output).len() > 0 {
        "✅ Now following "@ + input + " (total: "@ + number::decimal(total) + " follows)"@
    } else {
        "✅ Follow list published (total: "@ + number::decimal(total) + " follows)"@
    }
}

/// The next step of a follow; none where the event does not belong to the stage.
pub open spec fn follow_step(
    input: Seq<char>,
    bot: Seq<char>,
    stage: FollowStageView,
    event: FollowEvent,
) -> Option<(FollowStageView, FollowActionView)> {
    match (stage, event) {
        (FollowStageView::Target, FollowEvent::Resolved(key)) => match key {
            Some(hex) => Some(
                (FollowStageView::Own { target: hex@ }, FollowActionView::Resolve(bot)),
            ),
            None => Some(follow_ends(unresolved(input))),
        },
        (FollowStageView::Own { target }, FollowEvent::Resolved(key)) => match key {
            Some(hex) => Some(
                (
                    FollowStageView::Contacts { target },
                    FollowActionView::FetchContacts(hex@),
                ),
            ),
            None => Some(
                follow_ends(
                    "⚠️ Could not resolve bot's own identity. This is a configuration issue."@,
                ),
            ),
        },
        (FollowStageView::Contacts { target }, FollowEvent::Fetched(ran)) => match ran {
            Ran::Failed => Some(
                follow_ends("⚠️ Could not fetch current follow list from relays."@),
            ),
            Ran::TimedOut => Some(follow_ends("⚠️ Relay lookup timed out. Try again later."@)),
            Ran::Output(o) => Some(contacts_fetched(input, target, o@)),
        },
        (FollowStageView::Publish { total }, FollowEvent::NotStarted) => Some(
            follow_ends("⚠️ Could not publish follow list. Is `nak` installed?"@),
        ),
        (FollowStageView::Publish { total }, FollowEvent::Published(ran)) => match ran {
            Ran::Failed => Some(follow_ends("⚠️ Failed to publish follow list to relays."@)),
            Ran::TimedOut => Some(
                follow_ends("⚠️ Publishing follow list timed out. Try again later."@),
            ),
            Ran::Output(o) => Some(follow_ends(published_text(input, total, o@))),
        },
        _ => None,
    }
}

/// The view of a step.
pub open spec fn opt_step(r: Option<(FollowStage, FollowAction)>) -> Option<
    (FollowStageView, FollowActionView),
> {
    match r {
        Some(p) => Some((p.0@, p.1@)),
        None => None,
    }
}

fn follow_done(s: &str) -> (r: Option<(FollowStage, FollowAction)>)
    ensures
        opt_step(r) == Some(follow_ends(s@)),
{
    Some((FollowStage::Done, FollowAction::Reply(s.to_owned())))
}

fn take_contacts(input: &str, target: &str, output: &str) -> (r: Option<(FollowStage, FollowAction)>)
    ensures
        match r {
            Some(p) => (p.0@, p.1@) == contacts_fetched(input@, target@, output@),
            None => false,
        },
{
    let event = nak::first_event(output);
    let known: Option<&Json> = match &event {
        Some(e) => Some(e),
        None => None,
    };
    let mut contacts = read_contacts(known);
    let ghost before = json::list_views(contacts@);
    proof {
        assert(before == contacts_in(nak::printed_event(output@)));
        assert(before.len() == contacts.len());
    }
    if follows_already(&contacts, target) {
        return follow_done(text::cat3("ℹ️ Already following ", input, ".").as_str());
    }
    let mut tag: Vec<String> = Vec::new();
    tag.push("p".to_owned());
    tag.push(target.to_owned());
    let ghost strings = text::views(tag@);
    proof {
        assert(strings =~= Seq::empty().push("p"@).push(target@));
    }
    contacts.push(tag);
    proof {
        assert(json::list_views(contacts@) =~= with_follow(before, target@));
    }
    Some(
        (
            FollowStage::Publish { total: contacts.len() },
            FollowAction::Publish(build_contacts(&contacts)),
        ),
    )
}

fn show_published(input: &str, total: usize, output: &str) -> (r: String)
    ensures
        r@ == published_text(input@, total as nat, output@),
{
    let n = number::show_size(total);
    if text::contains(output, "\"id\"") || text::contains(output, "published") || !text::trim(
        output,
    ).is_empty() {
        text::cat5("✅ Now following ", input, " (total: ", n.as_str(), " follows)")
    } else {
        text::cat3("✅ Follow list published (total: ", n.as_str(), " follows)")
    }
}

/// Takes a follow one step further.
pub fn follow_next(input: &str, bot_npub: &str, stage: &FollowStage, event: FollowEvent) -> (r: Option<
    (FollowStage, FollowAction),
>)
    ensures
        opt_step(r) == follow_step(input@, bot_npub@, stage@, event),
{
    match (stage, event) {
        (FollowStage::Target, FollowEvent::Resolved(key)) => match key {
            Some(hex) => Some(
                (
                    FollowStage::Own { target: hex.to_owned() },
                    FollowAction::Resolve(bot_npub.to_owned()),
                ),
            ),
            None => follow_done(unresolved_reply(input).as_str()),
        },
        (FollowStage::Own { target }, FollowEvent::Resolved(key)) => match key {
            Some(hex) => Some(
                (
                    FollowStage::Contacts { target: target.clone() },
                    FollowAction::FetchContacts(hex.to_owned()),
                ),
            ),
            None => follow_done(
                "⚠️ Could not resolve bot's own identity. This is a configuration issue.",
            ),
        },
        (FollowStage::Contacts { target }, FollowEvent::Fetched(ran)) => match ran {
            Ran::Failed => follow_done("⚠️ Could not fetch current follow list from relays."),
            Ran::TimedOut => follow_done("⚠️ Relay lookup timed out. Try again later."),
            Ran::Output(o) => take_contacts(input, target.as_str(), o),
        },
        (FollowStage::Publish { total }, FollowEvent::NotStarted) => follow_done(
            "⚠️ Could not publish follow list. Is `nak` installed?",
        ),
        (FollowStage::Publish { total }, FollowEvent::Published(ran)) => match ran {
            Ran::Failed => follow_done("⚠️ Failed to publish follow list to relays."),
            Ran::TimedOut => follow_done("⚠️ Publishing follow list timed out. Try again later."),
            Ran::Output(o) => follow_done(show_published(input, *total, o).as_str()),
        },
        _ => None,
    }
}

/// A contact list that is published keeps everyone who was followed and adds the one who was not.
pub proof fn law_follow_only_adds(
    input: Seq<char>,
    bot: Seq<char>,
    target: Seq<char>,
    output: &str,
)
    ensures
        ({
            let old_list = contacts_in(nak::printed_event(output@));
            let step = follow_step(
                input,
                bot,
                FollowStageView::Contacts { target },
                FollowEvent::Fetched(Ran::Output(output)),
            );
            match step {
                Some((_, FollowActionView::Publish(event))) => {
                    let new_list = with_follow(old_list, target);
                    &&& event == contact_event(new_list)
                    &&& old_list.is_prefix_of(new_list)
                    &&& !is_followed(old_list, target)
                    &&& is_followed(new_list, target)
                },
                _ => is_followed(old_list, target),
            }
        }),
{
    let old_list = contacts_in(nak::printed_event(output@));
    let new_list = with_follow(old_list, target);
    assert(old_list =~= new_list.subrange(0, old_list.len() as int));
    assert(new_list[old_list.len() as int].len() >= 2 && new_list[old_list.len() as int][1]
        == target);
}

} // verus!
