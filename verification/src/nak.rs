//! Reading what the `nak` tool prints: keys, events and encoded addresses.

use vstd::prelude::*;
use crate::json::{Json, JsonView};
use crate::{json, text};

verus! {

// ---------------------------------------------------------------------------
// Keys
// ---------------------------------------------------------------------------

/// Whether a character is a hexadecimal digit.
pub open spec fn is_hex(c: char) -> bool {
    '0' <= c <= '9' || 'a' <= c <= 'f' || 'A' <= c <= 'F'
}

/// Whether a text is a public key: sixty-four hexadecimal digits.
pub open spec fn is_key(s: Seq<char>) -> bool {
    s.len() == 64 && forall|i: int| 0 <= i < s.len() ==> is_hex(#[trigger] s[i])
}

fn hex_char(c: char) -> (r: bool)
    ensures
        r == is_hex(c),
{
    ('0' <= c && c <= '9') || ('a' <= c && c <= 'f') || ('A' <= c && c <= 'F')
}

/// Whether a text is a public key.
pub fn is_hex_key(s: &str) -> (r: bool)
    ensures
        r == is_key(s@),
{
    let chars = text::chars_of(s);
    if chars.len() != 64 {
        return false;
    }
    let mut i: usize = 0;
    while i < chars.len()
        invariant
            i <= chars.len(),
            chars@ == s@,
            forall|k: int| 0 <= k < i ==> is_hex(#[trigger] s@[k]),
        decreases chars.len() - i,
    {
        if !hex_char(chars[i]) {
            proof {
                assert(!is_hex(s@[i as int]));
            }
            return false;
        }
        i = i + 1;
    }
    true
}

/// A text without what comes before its first hexadecimal digit.
pub open spec fn from_hex(s: Seq<char>) -> Seq<char>
    decreases s.len(),
{
    if s.len() == 0 || is_hex(s[0]) {
        s
    } else {
        from_hex(s.drop_first())
    }
}

/// A text without what comes after its last hexadecimal digit.
pub open spec fn to_hex(s: Seq<char>) -> Seq<char>
    decreases s.len(),
{
    if s.len() == 0 || is_hex(s.last()) {
        s
    } else {
        to_hex(s.drop_last())
    }
}

fn trim_to_hex<'a>(s: &'a str) -> (r: &'a str)
    ensures
        r@ == to_hex(from_hex(s@)),
{
    let chars = text::chars_of(s);
    let n: usize = chars.len();
    let mut from: usize = 0;
    proof {
        assert(s@.skip(0) =~= s@);
    }
    while from < n && !hex_char(chars[from])
        invariant
            from <= n,
            n == chars.len(),
            chars@ == s@,
            from_hex(s@) == from_hex(s@.skip(from as int)),
        decreases n - from,
    {
        proof {
            assert(s@.skip(from as int).drop_first() =~= s@.skip(from + 1));
        }
        from = from + 1;
    }
    proof {
        assert(from_hex(s@) == s@.skip(from as int));
        assert(s@.subrange(from as int, n as int) =~= s@.skip(from as int));
    }
    let mut to: usize = n;
    while to > from && !hex_char(chars[to - 1])
        invariant
            from <= to <= n,
            n == chars.len(),
            chars@ == s@,
            to_hex(from_hex(s@)) == to_hex(s@.subrange(from as int, to as int)),
        decreases to,
    {
        proof {
            assert(s@.subrange(from as int, to as int).drop_last() =~= s@.subrange(
                from as int,
                to - 1,
            ));
        }
        to = to - 1;
    }
    let r = s.substring_char(from, to);
    proof {
        assert(r@ =~= s@.subrange(from as int, to as int));
    }
    r
}

/// The first of the lines that is a key, trimmed.
pub open spec fn key_line(lines: Seq<Seq<char>>, from: int) -> Option<Seq<char>>
    decreases lines.len() - from,
{
    if from < 0 || from >= lines.len() {
        None
    } else if is_key(text::trimmed(lines[from])) {
        Some(text::trimmed(lines[from]))
    } else {
        key_line(lines, from + 1)
    }
}

/// The first of the words that is a key, without what is around it.
pub open spec fn key_word(words: Seq<Seq<char>>, from: int) -> Option<Seq<char>>
    decreases words.len() - from,
{
    if from < 0 || from >= words.len() {
        None
    } else if is_key(to_hex(from_hex(words[from]))) {
        Some(to_hex(from_hex(words[from])))
    } else {
        key_word(words, from + 1)
    }
}

/// The key in what the tool printed: on a line of its own, or else as a word.
pub open spec fn printed_key(output: Seq<char>) -> Option<Seq<char>> {
    match key_line(text::text_lines(output), 0) {
        Some(k) => Some(text::str_lowercase(k)),
        None => match key_word(text::words(output), 0) {
            Some(k) => Some(text::str_lowercase(k)),
            None => None,
        },
    }
}

/// Finds the key in what the tool printed.
pub fn find_key(output: &str) -> (r: Option<String>)
    ensures
        text::opt_view(r) == printed_key(output@),
{
    let lines = text::lines(output);
    let ghost all = text::views(lines@);
    let mut i: usize = 0;
    while i < lines.len()
        invariant
            i <= lines.len(),
            all == text::views(lines@),
            all == text::text_lines(output@),
            key_line(all, 0) == key_line(all, i as int),
        decreases lines.len() - i,
    {
        let t = text::trim(lines[i].as_str());
        proof {
            assert(all[i as int] == lines@[i as int]@);
        }
        if is_hex_key(t) {
            return Some(text::to_lowercase(t));
        }
        i = i + 1;
    }
    let words = text::split_words(output);
    let ghost names = text::views(words@);
    let mut j: usize = 0;
    while j < words.len()
        invariant
            j <= words.len(),
            names == text::views(words@),
            names == text::words(output@),
            key_line(text::text_lines(output@), 0) is None,
            key_word(names, 0) == key_word(names, j as int),
        decreases words.len() - j,
    {
        let t = trim_to_hex(words[j].as_str());
        proof {
            assert(names[j as int] == words@[j as int]@);
        }
        if is_hex_key(t) {
            return Some(text::to_lowercase(t));
        }
        j = j + 1;
    }
    None
}

/// How a name is turned into a public key.
pub enum KeyInput {
    /// The tool decodes this npub.
    Decode(String),
    /// This is the key.
    Key(String),
    /// It is neither an npub nor a key.
    Invalid,
}

/// How a name is turned into a public key.
pub enum KeyInputView {
    Decode(Seq<char>),
    Key(Seq<char>),
    Invalid,
}

impl View for KeyInput {
    type V = KeyInputView;

    open spec fn view(&self) -> KeyInputView {
        match self {
            KeyInput::Decode(s) => KeyInputView::Decode(s@),
            KeyInput::Key(s) => KeyInputView::Key(s@),
            KeyInput::Invalid => KeyInputView::Invalid,
        }
    }
}

/// How a name is turned into a public key.
pub open spec fn key_input(typed: Seq<char>) -> KeyInputView {
    let s = text::trimmed(typed);
    if "npub1"@.is_prefix_of(s) {
        KeyInputView::Decode(s)
    } else if is_key(s) {
        KeyInputView::Key(text::str_lowercase(s))
    } else {
        KeyInputView::Invalid
    }
}

/// Decides how a name is turned into a public key.
pub fn resolve_pubkey(input: &str) -> (r: KeyInput)
    ensures
        r@ == key_input(input@),
{
    let s = text::trim(input);
    if text::starts_with(s, "npub1") {
        KeyInput::Decode(s.to_owned())
    } else if is_hex_key(s) {
        KeyInput::Key(text::to_lowercase(s))
    } else {
        KeyInput::Invalid
    }
}

// ---------------------------------------------------------------------------
// Events
// ---------------------------------------------------------------------------

/// The first of the lines that is JSON.
pub open spec fn json_line(lines: Seq<Seq<char>>, from: int) -> Option<JsonView>
    decreases lines.len() - from,
{
    if from < 0 || from >= lines.len() {
        None
    } else if text::trimmed(lines[from]).len() > 0 && json::json_parsed(lines[from]) is Some {
        json::json_parsed(lines[from])
    } else {
        json_line(lines, from + 1)
    }
}

/// The first event in what the tool printed, one to a line.
pub open spec fn printed_event(output: Seq<char>) -> Option<JsonView> {
    json_line(text::text_lines(output), 0)
}

/// Finds the first event in what the tool printed.
pub fn first_event(output: &str) -> (r: Option<Json>)
    ensures
        json::opt_json(r) == printed_event(output@),
{
    let lines = text::lines(output);
    let ghost all = text::views(lines@);
    let mut i: usize = 0;
    while i < lines.len()
        invariant
            i <= lines.len(),
            all == text::views(lines@),
            all == text::text_lines(output@),
            json_line(all, 0) == json_line(all, i as int),
        decreases lines.len() - i,
    {
        let line = lines[i].as_str();
        proof {
            assert(all[i as int] == line@);
        }
        if !text::trim(line).is_empty() {
            if let Some(j) = json::parse_json(line) {
                return Some(j);
            }
        }
        i = i + 1;
    }
    None
}

/// Whether a line is a JSON object.
pub open spec fn is_object_line(line: Seq<char>) -> bool {
    let s = text::trimmed(line);
    s.len() > 0 && s[0] == '{' && json::json_parsed(s) is Some
}

/// The first of the lines that is a JSON object, trimmed.
pub open spec fn object_line(lines: Seq<Seq<char>>, from: int) -> Option<Seq<char>>
    decreases lines.len() - from,
{
    if from < 0 || from >= lines.len() {
        None
    } else if is_object_line(lines[from]) {
        Some(text::trimmed(lines[from]))
    } else {
        object_line(lines, from + 1)
    }
}

/// The signed event in what the tool printed.
pub open spec fn printed_object(output: Seq<char>) -> Option<Seq<char>> {
    object_line(text::text_lines(output), 0)
}

/// Finds the signed event in what the tool printed.
pub fn signed_event(output: &str) -> (r: Option<String>)
    ensures
        text::opt_view(r) == printed_object(output@),
{
    let lines = text::lines(output);
    let ghost all = text::views(lines@);
    let mut i: usize = 0;
    while i < lines.len()
        invariant
            i <= lines.len(),
            all == text::views(lines@),
            all == text::text_lines(output@),
            object_line(all, 0) == object_line(all, i as int),
        decreases lines.len() - i,
    {
        let t = text::trim(lines[i].as_str());
        proof {
            assert(all[i as int] == lines@[i as int]@);
        }
        if text::starts_with_char(t, '{') {
            if json::parse_json(t).is_some() {
                return Some(t.to_owned());
            }
        }
        i = i + 1;
    }
    None
}

/// The encoded form in what the tool printed: all of it, where it starts as it should.
pub open spec fn printed_form(output: Seq<char>, prefix: Seq<char>) -> Option<Seq<char>> {
    if prefix.is_prefix_of(text::trimmed(output)) {
        Some(text::trimmed(output))
    } else {
        None
    }
}

/// Reads an encoded form out of what the tool printed.
pub fn encoded_form(output: &str, prefix: &str) -> (r: Option<String>)
    ensures
        text::opt_view(r) == printed_form(output@, prefix@),
{
    let t = text::trim(output);
    if text::starts_with(t, prefix) {
        Some(t.to_owned())
    } else {
        None
    }
}

/// The profile in an event: its content as JSON.
pub open spec fn profile_in(event: JsonView) -> JsonView {
    match json::json_parsed(text::or_else(event.text_at("content"@), "{}"@)) {
        Some(j) => j,
        None => JsonView::Null,
    }
}

/// Reads the profile in an event.
pub fn read_profile(event: &Json) -> (r: Json)
    ensures
        r@ == profile_in(event@),
{
    let content = text::own_or(event.str_at("content"), "{}");
    match json::parse_json(content.as_str()) {
        Some(j) => j,
        None => Json::Null,
    }
}

// ---------------------------------------------------------------------------
// Arguments
// ---------------------------------------------------------------------------

fn push_arg(args: &mut Vec<String>, s: &str)
    ensures
        text::views(final(args)@) == text::views(old(args)@).push(s@),
{
    let ghost before = text::views(args@);
    args.push(s.to_owned());
    proof {
        assert(text::views(args@) =~= before.push(s@));
    }
}

/// How the tool is asked to decode an npub.
pub fn decode_args(npub: &str) -> (r: Vec<String>)
    ensures
        text::views(r@) == Seq::empty().push("decode"@).push(npub@),
{
    let mut args: Vec<String> = Vec::new();
    proof {
        assert(text::views(args@) =~= Seq::empty());
    }
    push_arg(&mut args, "decode");
    push_arg(&mut args, npub);
    args
}

/// How the tool is asked to encode something: a key as an npub, or an address as an lnurl.
pub fn encode_args(form: &str, what: &str) -> (r: Vec<String>)
    ensures
        text::views(r@) == Seq::empty().push("encode"@).push(form@).push(what@),
{
    let mut args: Vec<String> = Vec::new();
    proof {
        assert(text::views(args@) =~= Seq::empty());
    }
    push_arg(&mut args, "encode");
    push_arg(&mut args, form);
    push_arg(&mut args, what);
    args
}

/// How the tool is asked for the profile of a key, at the relays for reading.
pub fn profile_args(hex: &str) -> (r: Vec<String>)
    ensures
        text::views(r@) == Seq::empty().push("req"@).push("-k"@).push("0"@).push("-a"@).push(
            hex@,
        ).push("wss://relay.ditto.pub"@).push("wss://relay.primal.net"@).push(
            "wss://nos.lol"@,
        ),
{
    let mut args: Vec<String> = Vec::new();
    proof {
        assert(text::views(args@) =~= Seq::empty());
    }
    push_arg(&mut args, "req");
    push_arg(&mut args, "-k");
    push_arg(&mut args, "0");
    push_arg(&mut args, "-a");
    push_arg(&mut args, hex);
    push_arg(&mut args, "wss://relay.ditto.pub");
    push_arg(&mut args, "wss://relay.primal.net");
    push_arg(&mut args, "wss://nos.lol");
    args
}

/// How the tool is asked for the contact list of a key.
pub fn contacts_args(hex: &str) -> (r: Vec<String>)
    ensures
        text::views(r@) == Seq::empty().push("req"@).push("-k"@).push("3"@).push("-a"@).push(
            hex@,
        ).push("wss://relay.ditto.pub"@),
{
    let mut args: Vec<String> = Vec::new();
    proof {
        assert(text::views(args@) =~= Seq::empty());
    }
    push_arg(&mut args, "req");
    push_arg(&mut args, "-k");
    push_arg(&mut args, "3");
    push_arg(&mut args, "-a");
    push_arg(&mut args, hex);
    push_arg(&mut args, "wss://relay.ditto.pub");
    args
}

/// How the tool is asked to sign an event and to publish it at the relays for writing.
pub fn publish_args(nsec: &str) -> (r: Vec<String>)
    ensures
        text::views(r@) == Seq::empty().push("event"@).push("--sec"@).push(nsec@).push(
            "wss://relay.ditto.pub"@,
        ).push("wss://relay.primal.net"@),
{
    let mut args: Vec<String> = Vec::new();
    proof {
        assert(text::views(args@) =~= Seq::empty());
    }
    push_arg(&mut args, "event");
    push_arg(&mut args, "--sec");
    push_arg(&mut args, nsec);
    push_arg(&mut args, "wss://relay.ditto.pub");
    push_arg(&mut args, "wss://relay.primal.net");
    args
}

/// What is found is a key, in lower case.
pub proof fn law_found_key_is_a_key(output: Seq<char>)
    ensures
        match printed_key(output) {
            Some(found) => exists|k: Seq<char>| #[trigger]
                is_key(k) && found == text::str_lowercase(k),
            None => true,
        },
{
    lemma_key_line(text::text_lines(output), 0);
    lemma_key_word(text::words(output), 0);
}

proof fn lemma_key_line(lines: Seq<Seq<char>>, from: int)
    ensures
        match key_line(lines, from) {
            Some(k) => is_key(k),
            None => true,
        },
    decreases lines.len() - from,
{
    if 0 <= from < lines.len() && !is_key(text::trimmed(lines[from])) {
        lemma_key_line(lines, from + 1);
    }
}

proof fn lemma_key_word(words: Seq<Seq<char>>, from: int)
    ensures
        match key_word(words, from) {
            Some(k) => is_key(k),
            None => true,
        },
    decreases words.len() - from,
{
    if 0 <= from < words.len() && !is_key(to_hex(from_hex(words[from]))) {
        lemma_key_word(words, from + 1);
    }
}

} // verus!
