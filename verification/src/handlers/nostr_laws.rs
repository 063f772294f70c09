//! What holds of keys, names, profiles and contact lists as a whole.

use vstd::prelude::*;
use crate::bot;
use crate::bot::ProfileView;
use crate::handlers::nostr_cmds;
use crate::handlers::nostr_cmds::{FollowActionView, FollowEvent, FollowStageView, Ran};
use crate::json::JsonView;
use crate::nak;
use crate::nak::KeyInputView;
use crate::{json, number, text};

verus! {

// ---------------------------------------------------------------------------
// Keys
// ---------------------------------------------------------------------------

/// A hexadecimal digit of either case.
pub open spec fn in_hex(c: char) -> bool {
    "0123456789abcdefABCDEF"@.contains(c)
}

proof fn lemma_hex_digits(c: char)
    ensures
        in_hex(c) <==> nak::is_hex(c),
{
    reveal_strlit("0123456789abcdefABCDEF");
    let all = "0123456789abcdefABCDEF"@;
    if '0' <= c <= '9' {
        assert(all[c as int - '0' as int] == c);
    } else if 'a' <= c <= 'f' {
        assert(all[c as int - 'a' as int + 10] == c);
    } else if 'A' <= c <= 'F' {
        assert(all[c as int - 'A' as int + 16] == c);
    }
}

/// A public key is written in sixty-four hexadecimal digits.
pub proof fn law_keys_are_hexadecimal(s: Seq<char>)
    ensures
        nak::is_key(s) <==> s.len() == 64 && forall|i: int|
            0 <= i < s.len() ==> in_hex(#[trigger] s[i]),
{
    assert forall|i: int| 0 <= i < s.len() implies in_hex(#[trigger] s[i]) == nak::is_hex(s[i]) by {
        lemma_hex_digits(s[i]);
    }
    if nak::is_key(s) {
        assert forall|i: int| 0 <= i < s.len() implies in_hex(#[trigger] s[i]) by {
            assert(nak::is_hex(s[i]));
        }
    }
    if s.len() == 64 && forall|i: int| 0 <= i < s.len() ==> in_hex(#[trigger] s[i]) {
        assert forall|i: int| 0 <= i < s.len() implies nak::is_hex(#[trigger] s[i]) by {
            assert(in_hex(s[i]));
        }
    }
}

/// A user is named by an npub, which is decoded as it is, or by a key in hexadecimal, which is taken
/// in lower case; anything else names nobody.
pub proof fn law_user_is_named_by_key(before: Seq<char>, s: Seq<char>, after: Seq<char>)
    requires
        s.len() > 0,
        text::unspaced(s),
        forall|i: int| 0 <= i < before.len() ==> text::char_is_whitespace(#[trigger] before[i]),
        forall|i: int| 0 <= i < after.len() ==> text::char_is_whitespace(#[trigger] after[i]),
    ensures
        nak::is_key(s) ==> nak::key_input(before + s + after) == KeyInputView::Key(
            text::str_lowercase(s),
        ),
        s.len() >= 5 && s.take(5) == "npub1"@ ==> nak::key_input(before + s + after)
            == KeyInputView::Decode(s),
        !nak::is_key(s) && (s.len() < 5 || s.take(5) != "npub1"@) ==> nak::key_input(
            before + s + after,
        ) == KeyInputView::Invalid,
{
    reveal_strlit("npub1");
    assert(s[s.len() - 1] == s.last());
    text::lemma_trim_around(before, s, after);
    if s.len() >= 5 {
        assert(s.take(5) =~= s.subrange(0, 5));
    }
    if nak::is_key(s) && "npub1"@.is_prefix_of(s) {
        assert(s.subrange(0, 5)[0] == 'n');
        assert(nak::is_hex(s[0]));
    }
}

proof fn lemma_from_hex(before: Seq<char>, key: Seq<char>)
    requires
        forall|i: int| 0 <= i < before.len() ==> !nak::is_hex(#[trigger] before[i]),
        key.len() > 0,
        nak::is_hex(key[0]),
    ensures
        nak::from_hex(before + key) == key,
    decreases before.len(),
{
    let all = before + key;
    if before.len() == 0 {
        assert(all =~= key);
    } else {
        let rest = before.drop_first();
        assert(all[0] == before[0]);
        assert(all.drop_first() =~= rest + key);
        assert forall|i: int| 0 <= i < rest.len() implies !nak::is_hex(#[trigger] rest[i]) by {
            assert(rest[i] == before[i + 1]);
        }
        lemma_from_hex(rest, key);
    }
}

proof fn lemma_to_hex(key: Seq<char>, after: Seq<char>)
    requires
        forall|i: int| 0 <= i < after.len() ==> !nak::is_hex(#[trigger] after[i]),
        key.len() > 0,
        nak::is_hex(key.last()),
    ensures
        nak::to_hex(key + after) == key,
    decreases after.len(),
{
    let all = key + after;
    if after.len() == 0 {
        assert(all =~= key);
    } else {
        let rest = after.drop_last();
        assert(after[after.len() - 1] == after.last());
        assert(all.last() == after.last());
        assert(all.drop_last() =~= key + rest);
        assert forall|i: int| 0 <= i < rest.len() implies !nak::is_hex(#[trigger] rest[i]) by {
            assert(rest[i] == after[i]);
        }
        lemma_to_hex(key, rest);
    }
}

/// A key is found in what the tool printed, alone or with quotes and other signs around it, and is
/// given in lower case.
#[verifier::rlimit(30)]
pub proof fn law_printed_key_is_found(before: Seq<char>, key: Seq<char>, after: Seq<char>)
    requires
        nak::is_key(key),
        text::unspaced(before),
        text::unspaced(after),
        forall|i: int| 0 <= i < before.len() ==> !nak::is_hex(#[trigger] before[i]),
        forall|i: int| 0 <= i < after.len() ==> !nak::is_hex(#[trigger] after[i]),
    ensures
        nak::printed_key(before + key + after) == Some(text::str_lowercase(key)),
{
    let word = before + key + after;
    let none = Seq::<char>::empty();
    assert(nak::is_hex(key[0]) && nak::is_hex(key[key.len() - 1]));
    assert(key[key.len() - 1] == key.last());
    assert forall|i: int| 0 <= i < word.len() implies !text::char_is_whitespace(#[trigger] word[i]) by {
        if i < before.len() {
            assert(word[i] == before[i]);
        } else if i < before.len() + key.len() {
            assert(word[i] == key[i - before.len()]);
            assert(nak::is_hex(word[i]));
        } else {
            assert(word[i] == after[i - before.len() - key.len()]);
        }
    }
    assert(text::unspaced(word));
    if word.contains('\n') {
        let k = choose|k: int| 0 <= k < word.len() && word[k] == '\n';
        assert(!text::char_is_whitespace(word[k]));
    }
    assert(word[word.len() - 1] == word.last());
    assert(!text::char_is_whitespace(word.last()));
    text::law_lines_are_cut(none, word);
    text::law_words_are_counted(none, ' ', word);
    assert(none + word + none =~= word);
    text::lemma_trim_around(none, word, none);
    assert(before + (key + after) =~= word);
    assert((key + after)[0] == key[0]);
    lemma_from_hex(before, key + after);
    lemma_to_hex(key, after);
    let lines = text::text_lines(word);
    assert(lines == seq![word]);
    assert(lines.len() == 1 && lines[0] == word);
    assert(text::words(word) == seq![word]);
    if nak::is_key(word) {
        assert(before.len() + after.len() == 0);
        assert(word =~= key);
    } else {
        assert(nak::key_line(lines, 1) is None);
        assert(nak::key_line(lines, 0) is None);
    }
}

// ---------------------------------------------------------------------------
// Events
// ---------------------------------------------------------------------------

proof fn lemma_first_json(lines: Seq<Seq<char>>, from: int, at: int)
    requires
        0 <= from <= at < lines.len(),
        text::trimmed(lines[at]).len() > 0,
        json::json_parsed(lines[at]) is Some,
        forall|j: int| from <= j < at ==> json::json_parsed(#[trigger] lines[j]) is None,
    ensures
        nak::json_line(lines, from) == json::json_parsed(lines[at]),
    decreases at - from,
{
    if from < at {
        lemma_first_json(lines, from + 1, at);
    }
}

proof fn lemma_no_json(lines: Seq<Seq<char>>, from: int)
    requires
        0 <= from,
        forall|j: int| from <= j < lines.len() ==> json::json_parsed(#[trigger] lines[j]) is None,
    ensures
        nak::json_line(lines, from) is None,
    decreases lines.len() - from,
{
    if from < lines.len() {
        lemma_no_json(lines, from + 1);
    }
}

/// An event is the first printed line that reads as one, whatever stands behind it.
pub proof fn law_first_event_counts(output: Seq<char>, at: int)
    requires
        0 <= at < text::text_lines(output).len(),
        text::trimmed(text::text_lines(output)[at]).len() > 0,
        forall|j: int|
            0 <= j < at ==> json::json_parsed(#[trigger] text::text_lines(output)[j]) is None,
    ensures
        json::json_parsed(text::text_lines(output)[at]) is Some ==> nak::printed_event(output)
            == json::json_parsed(text::text_lines(output)[at]),
        json::json_parsed(text::text_lines(output)[at]) is None && at == text::text_lines(output).len()
            - 1 ==> nak::printed_event(output) is None,
{
    let lines = text::text_lines(output);
    if json::json_parsed(lines[at]) is Some {
        lemma_first_json(lines, 0, at);
    } else if at == lines.len() - 1 {
        lemma_no_json(lines, 0);
    }
}

proof fn lemma_first_object(lines: Seq<Seq<char>>, from: int, at: int)
    requires
        0 <= from <= at < lines.len(),
        nak::is_object_line(lines[at]),
        forall|j: int| from <= j < at ==> !nak::is_object_line(#[trigger] lines[j]),
    ensures
        nak::object_line(lines, from) == Some(text::trimmed(lines[at])),
    decreases at - from,
{
    if from < at {
        lemma_first_object(lines, from + 1, at);
    }
}

/// A signed event is the first printed line that reads as an object, without the whitespace around
/// it.
pub proof fn law_first_object_counts(output: Seq<char>, at: int)
    requires
        0 <= at < text::text_lines(output).len(),
        forall|j: int| 0 <= j < at ==> !nak::is_object_line(#[trigger] text::text_lines(output)[j]),
        ({
            let line = text::trimmed(text::text_lines(output)[at]);
            line.len() > 0 && line[0] == '{' && json::json_parsed(line) is Some
        }),
    ensures
        nak::printed_object(output) == Some(text::trimmed(text::text_lines(output)[at])),
{
    lemma_first_object(text::text_lines(output), 0, at);
}

// ---------------------------------------------------------------------------
// Names
// ---------------------------------------------------------------------------

/// A name and its domain stand around an at sign, and are looked up at the domain under the name; a
/// string without one is refused.
pub proof fn law_name_is_looked_up(user: Seq<char>, domain: Seq<char>, other: Seq<char>)
    requires
        user.len() > 0,
        domain.len() > 0,
        text::unspaced(user),
        text::unspaced(domain),
        !user.contains('@'),
        text::trimmed(other) == other,
        !other.contains('@'),
    ensures
        nostr_cmds::name_parts(user.push('@') + domain) == Some((user, domain)),
        nostr_cmds::nip05_refusal(user.push('@') + domain) is None,
        nostr_cmds::verification_url(user.push('@') + domain) == Some(
            "https://"@ + domain + "/.well-known/nostr.json?name="@ + user,
        ),
        nostr_cmds::nip05_refusal(other) is Some,
        nostr_cmds::verification_url(other) is None,
{
    let all = user.push('@') + domain;
    let none = Seq::<char>::empty();
    assert forall|j: int| 0 <= j < user.len() implies all[j] != '@' by {
        assert(all[j] == user[j]);
        assert(user.contains(user[j]));
    }
    text::lemma_first_of(all, '@', user.len() as int);
    assert(all.take(user.len() as int) =~= user);
    assert(all.skip(user.len() as int + 1) =~= domain);
    assert(domain[domain.len() - 1] == domain.last());
    assert(all[0] == user[0] && all.last() == domain.last());
    assert(none + all + none =~= all);
    text::lemma_trim_around(none, all, none);
    text::lemma_first_of_bounds(other, '@');
    if text::first_of(other, '@') < other.len() {
        assert(other.contains(other[text::first_of(other, '@')]));
    }
}

/// A name is verified by the key that its domain lists under it, in whatever case; a name that is not
/// listed is not.
pub proof fn law_listed_key_verifies(
    data: JsonView,
    user: Seq<char>,
    domain: Seq<char>,
    hex: Seq<char>,
)
    requires
        !user.contains('@'),
    ensures
        data.at("names"@).text_at(user) == Some(hex) ==> nostr_cmds::lists_key(
            data,
            user.push('@') + domain,
            hex,
        ),
        data.at("names"@).text_at(user) is None ==> !nostr_cmds::lists_key(
            data,
            user.push('@') + domain,
            hex,
        ),
        data.at("names"@).text_at(user) matches Some(k) ==> (nostr_cmds::lists_key(
            data,
            user.push('@') + domain,
            hex,
        ) <==> text::str_lowercase(k) == text::str_lowercase(hex)),
{
    let all = user.push('@') + domain;
    assert forall|j: int| 0 <= j < user.len() implies all[j] != '@' by {
        assert(all[j] == user[j]);
        assert(user.contains(user[j]));
    }
    text::lemma_first_of(all, '@', user.len() as int);
    assert(all.take(user.len() as int) =~= user);
}

// ---------------------------------------------------------------------------
// Profiles
// ---------------------------------------------------------------------------

/// A profile goes by its name, without one by its display name, and without either by no name.
pub proof fn law_profile_has_a_name(p: JsonView)
    ensures
        p.text_at("name"@) matches Some(n) ==> nostr_cmds::profile_name(p) == n,
        p.text_at("name"@) is None ==> (p.text_at("display_name"@) matches Some(n)
            ==> nostr_cmds::profile_name(p) == n),
        p.text_at("name"@) is None && p.text_at("display_name"@) is None ==> nostr_cmds::profile_name(
            p,
        ) == "Unknown"@,
{
}

/// A long description is cut at two hundred characters, and a shorter one is shown whole.
pub proof fn law_description_is_cut(p: JsonView, about: Seq<char>)
    requires
        p.text_at("about"@) == Some(about),
        text::ascii_only(about),
        about.len() > 0,
    ensures
        nostr_cmds::about_cuttable(p),
        about.len() <= 200 ==> nostr_cmds::about_shown(p) == "📝 "@ + about + "\n"@,
        about.len() > 200 ==> nostr_cmds::about_shown(p) == "📝 "@ + about.take(200) + "...\n"@,
{
    text::lemma_ascii_bytes(about, about.len() as int);
    if about.len() > 200 {
        text::lemma_ascii_bytes(about, 200);
        reveal_strlit("...\n");
        reveal_strlit("...");
        reveal_strlit("\n");
        assert("...\n"@ =~= "..."@ + "\n"@);
        assert("📝 "@ + (about.take(200) + "..."@) + "\n"@ =~= "📝 "@ + about.take(200) + "...\n"@);
    }
}

/// A profile is shown with the name, the verified name, the Lightning address, the website and the
/// picture that it has.
#[verifier::rlimit(30)]
pub proof fn law_profile_is_shown(p: JsonView, verified: bool, s: Seq<char>)
    requires
        s.len() > 0,
        text::unspaced(s),
        nostr_cmds::profile_name(p) == s || p.text_at("nip05"@) == Some(s) || p.text_at("lud16"@)
            == Some(s) || p.text_at("website"@) == Some(s) || p.text_at("picture"@) == Some(s),
    ensures
        text::has_substring(nostr_cmds::profile_text(p, verified), s),
{
    assert(s[s.len() - 1] == s.last());
    let name = nostr_cmds::profile_name(p);
    let (h1, t1) = ("👤 **"@, "**\n"@);
    let about = nostr_cmds::about_shown(p);
    let mark = if verified {
        " ✅\n"@
    } else {
        " ❌\n"@
    };
    let nip = nostr_cmds::profile_line("🌐 NIP-05: "@, p.text_at("nip05"@), mark);
    let lud = nostr_cmds::profile_line("⚡ Lightning: "@, p.text_at("lud16"@), "\n"@);
    let web = nostr_cmds::profile_line("🔗 "@, p.text_at("website"@), "\n"@);
    let pic = nostr_cmds::profile_line("🖼️ "@, p.text_at("picture"@), ""@);
    let all = h1 + name + t1 + about + nip + lud + web + pic;
    assert(nostr_cmds::profile_text(p, verified) == text::trimmed(all));
    if name == s {
        lemma_in_five(h1, name, t1 + about, nip + lud, web + pic, all);
    } else if p.text_at("nip05"@) == Some(s) {
        text::lemma_substring_between("🌐 NIP-05: "@, s, mark);
        lemma_in_five(h1 + name + t1 + about, nip, lud, web, pic, all);
        text::lemma_substring_of_part(all, nip, s);
    } else if p.text_at("lud16"@) == Some(s) {
        text::lemma_substring_between("⚡ Lightning: "@, s, "\n"@);
        lemma_in_five(h1 + name + t1 + about + nip, lud, web, pic, Seq::empty(), all);
        text::lemma_substring_of_part(all, lud, s);
    } else if p.text_at("website"@) == Some(s) {
        text::lemma_substring_between("🔗 "@, s, "\n"@);
        lemma_in_five(h1 + name + t1 + about + nip + lud, web, pic, Seq::empty(), Seq::empty(), all);
        text::lemma_substring_of_part(all, web, s);
    } else {
        text::lemma_substring_between("🖼️ "@, s, ""@);
        lemma_in_five(
            h1 + name + t1 + about + nip + lud + web,
            pic,
            Seq::empty(),
            Seq::empty(),
            Seq::empty(),
            all,
        );
        text::lemma_substring_of_part(all, pic, s);
    }
    text::law_trimming_keeps_what_is_bare(all, s);
}

proof fn lemma_in_five(
    a: Seq<char>,
    p: Seq<char>,
    b: Seq<char>,
    c: Seq<char>,
    d: Seq<char>,
    all: Seq<char>,
)
    requires
        all =~= a + p + b + c + d,
    ensures
        text::has_substring(all, p),
{
    assert(all =~= a + p + (b + c + d));
    text::lemma_substring_between(a, p, b + c + d);
}

proof fn lemma_profile_keys()
    ensures
        "name"@ != "about"@,
        "name"@ != "bot"@,
        "name"@ != "picture"@,
        "name"@ != "banner"@,
        "name"@ != "lud16"@,
        "about"@ != "bot"@,
        "about"@ != "picture"@,
        "about"@ != "banner"@,
        "about"@ != "lud16"@,
        "bot"@ != "picture"@,
        "bot"@ != "banner"@,
        "bot"@ != "lud16"@,
        "picture"@ != "banner"@,
        "picture"@ != "lud16"@,
        "banner"@ != "lud16"@,
{
    reveal_strlit("name");
    reveal_strlit("about");
    reveal_strlit("bot");
    reveal_strlit("picture");
    reveal_strlit("banner");
    reveal_strlit("lud16");
    assert("name"@[0] == 'n' && "about"@[0] == 'a' && "picture"@[0] == 'p' && "lud16"@[0] == 'l');
    assert("bot"@[0] == 'b' && "banner"@[0] == 'b' && "bot"@[1] == 'o' && "banner"@[1] == 'a');
}

/// The bot's own profile says its name, its description and that it is a bot, and of a picture, a
/// banner and a Lightning address those that it has.
pub proof fn law_own_profile_is_complete(p: ProfileView)
    ensures
        bot::metadata(p).text_at("name"@) == Some(p.name),
        bot::metadata(p).text_at("about"@) == Some(p.about),
        bot::metadata(p).at("bot"@).boolean() == Some(true),
        p.picture.len() > 0 ==> bot::metadata(p).text_at("picture"@) == Some(p.picture),
        p.picture.len() == 0 ==> bot::metadata(p).field("picture"@) is None,
        p.banner.len() > 0 ==> bot::metadata(p).text_at("banner"@) == Some(p.banner),
        p.banner.len() == 0 ==> bot::metadata(p).field("banner"@) is None,
        p.lud16.len() > 0 ==> bot::metadata(p).text_at("lud16"@) == Some(p.lud16),
        p.lud16.len() == 0 ==> bot::metadata(p).field("lud16"@) is None,
{
    lemma_profile_keys();
    reveal_with_fuel(json::member_from, 8);
}

// ---------------------------------------------------------------------------
// Following
// ---------------------------------------------------------------------------

/// Everyone whom a contact list tags with a key is followed, in order; other tags count for nothing.
pub proof fn law_contacts_are_read(tags: Seq<JsonView>, tag: JsonView)
    ensures
        tag.nth(0).text() == Some("p"@) && tag.items() is Some && tag.items()->0.len() >= 2
            ==> nostr_cmds::follows_in(tags.push(tag)) == nostr_cmds::follows_in(tags).push(
            nostr_cmds::tag_strings(tag.items()->0),
        ),
        tag.nth(0).text() != Some("p"@) || tag.items() is None || tag.items()->0.len() < 2
            ==> nostr_cmds::follows_in(tags.push(tag)) == nostr_cmds::follows_in(tags),
        nostr_cmds::follows_in(Seq::empty()).len() == 0,
{
    assert(tags.push(tag).drop_last() =~= tags);
}

/// The list that is published is of the kind for contacts, and reads back as the contacts.
pub proof fn law_published_list_reads_back(contacts: Seq<Seq<Seq<char>>>)
    requires
        forall|i: int|
            0 <= i < contacts.len() ==> (#[trigger] contacts[i]).len() >= 2 && contacts[i][0] == "p"@,
    ensures
        nostr_cmds::contact_event(contacts).at("kind"@).unsigned() == Some(3nat),
        nostr_cmds::contact_event(contacts).text_at("content"@) == Some(""@),
        nostr_cmds::contacts_in(Some(nostr_cmds::contact_event(contacts))) == contacts,
{
    reveal_strlit("kind");
    reveal_strlit("content");
    reveal_strlit("tags");
    assert("kind"@[0] == 'k' && "content"@[0] == 'c' && "tags"@[0] == 't');
    reveal_with_fuel(json::member_from, 4);
    number::law_decimal_round_trip(3, u64::MAX as nat);
    number::lemma_decimal_digits(3);
    let tags = contacts.map_values(|t: Seq<Seq<char>>| json::text_array(t));
    lemma_follows_read_back(contacts, tags);
}

proof fn lemma_follows_read_back(contacts: Seq<Seq<Seq<char>>>, tags: Seq<JsonView>)
    requires
        forall|i: int|
            0 <= i < contacts.len() ==> (#[trigger] contacts[i]).len() >= 2 && contacts[i][0] == "p"@,
        tags.len() == contacts.len(),
        forall|i: int|
            0 <= i < tags.len() ==> #[trigger] tags[i] == json::text_array(contacts[i]),
    ensures
        nostr_cmds::follows_in(tags) == contacts,
    decreases contacts.len(),
{
    if contacts.len() == 0 {
        assert(nostr_cmds::follows_in(tags) =~= contacts);
    } else {
        let (c, t) = (contacts.drop_last(), tags.drop_last());
        assert forall|i: int| 0 <= i < c.len() implies (#[trigger] c[i]).len() >= 2 && c[i][0]
            == "p"@ by {
            assert(c[i] == contacts[i]);
        }
        assert forall|i: int| 0 <= i < t.len() implies #[trigger] t[i] == json::text_array(c[i]) by {
            assert(t[i] == tags[i] && c[i] == contacts[i]);
        }
        lemma_follows_read_back(c, t);
        let last = contacts[contacts.len() - 1];
        assert(tags[tags.len() - 1] == json::text_array(last));
        assert(tags.last() == json::text_array(last));
        let items = last.map_values(|s: Seq<char>| JsonView::Text(s));
        assert(tags.last().items() == Some(items));
        assert(items[0] == JsonView::Text("p"@));
        assert(nostr_cmds::is_follow(tags.last()));
        assert(nostr_cmds::tag_strings(items) =~= last);
        assert(c.push(last) =~= contacts);
    }
}

/// Someone new is followed in five steps: the user is resolved, the bot is, its contacts are fetched,
/// the list with the user at its end is published, and how many are followed is told.
pub proof fn law_follow_goes_through(
    input: Seq<char>,
    bot_npub: Seq<char>,
    target: &str,
    own: &str,
    fetched: &str,
    published: &str,
)
    requires
        input.len() > 0,
        text::trimmed(input) == input,
        !nostr_cmds::is_followed(nostr_cmds::contacts_in(nak::printed_event(fetched@)), target@),
        text::trimmed(published@).len() > 0,
    ensures
        ({
            let contacts = nostr_cmds::contacts_in(nak::printed_event(fetched@));
            let total = contacts.len() + 1;
            &&& nostr_cmds::follow_start(input, true) == (
                FollowStageView::Target,
                FollowActionView::Resolve(input),
            )
            &&& nostr_cmds::follow_step(
                input,
                bot_npub,
                FollowStageView::Target,
                FollowEvent::Resolved(Some(target)),
            ) == Some(
                (FollowStageView::Own { target: target@ }, FollowActionView::Resolve(bot_npub)),
            )
            &&& nostr_cmds::follow_step(
                input,
                bot_npub,
                FollowStageView::Own { target: target@ },
                FollowEvent::Resolved(Some(own)),
            ) == Some(
                (
                    FollowStageView::Contacts { target: target@ },
                    FollowActionView::FetchContacts(own@),
                ),
            )
            &&& nostr_cmds::follow_step(
                input,
                bot_npub,
                FollowStageView::Contacts { target: target@ },
                FollowEvent::Fetched(Ran::Output(fetched)),
            ) == Some(
                (
                    FollowStageView::Publish { total },
                    FollowActionView::Publish(
                        nostr_cmds::contact_event(contacts.push(seq!["p"@, target@])),
                    ),
                ),
            )
            &&& nostr_cmds::follow_step(
                input,
                bot_npub,
                FollowStageView::Publish { total },
                FollowEvent::Published(Ran::Output(published)),
            ) == Some(
                (
                    FollowStageView::Done,
                    FollowActionView::Reply(
                        "✅ Now following "@ + input + " (total: "@ + number::decimal(total)
                            + " follows)"@,
                    ),
                ),
            )
        }),
{
    let contacts = nostr_cmds::contacts_in(nak::printed_event(fetched@));
    assert(Seq::<Seq<char>>::empty().push("p"@).push(target@) =~= seq!["p"@, target@]);
}

/// Without a key of its own, an input or an answer at any step, the bot follows nobody and says so.
pub proof fn law_failed_follow_ends(
    input: Seq<char>,
    bot_npub: Seq<char>,
    target: Seq<char>,
    total: nat,
    has_nsec: bool,
)
    ensures
        nostr_cmds::follow_start(Seq::empty(), has_nsec).0 is Done,
        nostr_cmds::follow_start(input, false).0 is Done,
        nostr_cmds::follow_step(
            input,
            bot_npub,
            FollowStageView::Target,
            FollowEvent::Resolved(None),
        ) matches Some((stage, action)) && stage is Done && action is Reply,
        nostr_cmds::follow_step(
            input,
            bot_npub,
            FollowStageView::Own { target },
            FollowEvent::Resolved(None),
        ) matches Some((stage, action)) && stage is Done && action is Reply,
        nostr_cmds::follow_step(
            input,
            bot_npub,
            FollowStageView::Contacts { target },
            FollowEvent::Fetched(Ran::Failed),
        ) matches Some((stage, action)) && stage is Done && action is Reply,
        nostr_cmds::follow_step(
            input,
            bot_npub,
            FollowStageView::Contacts { target },
            FollowEvent::Fetched(Ran::TimedOut),
        ) matches Some((stage, action)) && stage is Done && action is Reply,
        nostr_cmds::follow_step(
            input,
            bot_npub,
            FollowStageView::Publish { total },
            FollowEvent::NotStarted,
        ) matches Some((stage, action)) && stage is Done && action is Reply,
{
}

} // verus!
