use concord_bots::handlers::nostr_cmds::{
    follow_command, follow_next, listed_key, look_up, nip05_command, nip05_reply, nip05_url,
    nostr_command, profile_reply, read_contacts, split_name, unresolved_reply, verify_nip05,
    FollowAction, FollowEvent, FollowStage, Ran,
};
use concord_bots::json;
use concord_bots::nak::{
    contacts_args, decode_args, encode_args, encoded_form, find_key, first_event, is_hex_key,
    profile_args, publish_args, read_profile, resolve_pubkey, signed_event, KeyInput,
};

#[test]
fn test_resolve_pubkey_hex_passthrough() {
    // Hex pubkeys should be recognized (64 hex chars)
    let hex = "a".repeat(64);
    assert_eq!(hex.len(), 64);
    assert!(hex.chars().all(|c| c.is_ascii_hexdigit()));
    assert!(matches!(resolve_pubkey(&hex), KeyInput::Key(k) if k == hex));
}

#[test]
fn test_nip05_parsing() {
    // Test basic user@domain parsing
    let (user, domain) = split_name("derekross@nostrplebs.com").unwrap();
    assert_eq!(user, "derekross");
    assert_eq!(domain, "nostrplebs.com");

    // NIP-05 with underscore prefix (e.g. _@domain)
    // The underscore is the username, @ splits on the domain
    let nip05 = "_@nostrplebs.com";
    let (user, domain) = split_name(nip05).unwrap();
    assert_eq!(user, "_");
    assert_eq!(domain, "nostrplebs.com");
    assert_eq!(
        nip05_url(nip05).unwrap(),
        "https://nostrplebs.com/.well-known/nostr.json?name=_"
    );
}

#[test]
fn keys_are_resolved() {
    assert!(matches!(resolve_pubkey("npub1abc"), KeyInput::Decode(n) if n == "npub1abc"));
    assert!(matches!(resolve_pubkey(" npub1abc "), KeyInput::Decode(n) if n == "npub1abc"));
    assert!(matches!(resolve_pubkey("bob"), KeyInput::Invalid));
    assert!(is_hex_key(&"0F".repeat(32)));
    assert!(!is_hex_key(&"g".repeat(64)));
    assert!(!is_hex_key("abc"));
}

#[test]
fn keys_are_found_in_output() {
    let hex = "ab".repeat(32);
    assert_eq!(find_key(&format!("{}\n", hex)).unwrap(), hex);
    assert_eq!(find_key(&format!("{{\"pubkey\": \"{}\"}}", hex)).unwrap(), hex);
    assert!(find_key("nothing here").is_none());
}

#[test]
fn events_are_found_in_output() {
    let e = first_event("connecting...\n{\"kind\":0,\"content\":\"{\\\"name\\\":\\\"bob\\\"}\"}\n").unwrap();
    assert_eq!(read_profile(&e).str_at("name"), Some("bob"));
    assert!(first_event("nothing").is_none());
    assert!(signed_event("").is_none());
    assert_eq!(encoded_form("npub1abc\n", "npub1").unwrap(), "npub1abc");
    assert!(encoded_form("oops", "npub1").is_none());
}

#[test]
fn tool_arguments() {
    assert_eq!(decode_args("npub1a"), vec!["decode", "npub1a"]);
    assert_eq!(encode_args("npub", "ab"), vec!["encode", "npub", "ab"]);
    assert!(profile_args("ab").contains(&"ab".to_string()));
    assert!(contacts_args("ab").contains(&"ab".to_string()));
    assert!(publish_args("nsec1x").contains(&"nsec1x".to_string()));
}

#[test]
fn profiles_are_shown() {
    assert!(nostr_command("").is_err());
    assert_eq!(nostr_command(" bob "), Ok("bob".to_string()));
    assert_eq!(
        unresolved_reply("bob"),
        "⚠️ Could not resolve \"bob\". Make sure it's a valid npub or hex pubkey."
    );
    assert!(matches!(look_up("bob", Ran::Failed), Err(e) if e == "⚠️ Could not reach Nostr relays. Try again later."));
    assert!(matches!(look_up("bob", Ran::TimedOut), Err(e) if e == "⚠️ Relay lookup timed out. Try again later."));
    assert!(matches!(look_up("bob", Ran::Output("")), Err(e) if e == "🔍 No profile found for bob"));
    let p = json::read("{\"display_name\":\"Bob\",\"about\":\"Hi\",\"nip05\":\"bob@x.y\",\"lud16\":\"bob@z\",\"website\":\"w\",\"picture\":\"p\"}").unwrap();
    assert_eq!(
        profile_reply(&p, true).unwrap(),
        "👤 **Bob**\n📝 Hi\n🌐 NIP-05: bob@x.y ✅\n⚡ Lightning: bob@z\n🔗 w\n🖼️ p"
    );
    let empty = json::read("{}").unwrap();
    assert_eq!(profile_reply(&empty, false).unwrap(), "👤 **Unknown**");
    let long = json::read(&format!("{{\"about\":\"{}\"}}", "x".repeat(201))).unwrap();
    assert_eq!(
        profile_reply(&long, false).unwrap(),
        format!("👤 **Unknown**\n📝 {}...", "x".repeat(200))
    );
    let uncut = json::read(&format!("{{\"about\":\"x{}\"}}", "é".repeat(120))).unwrap();
    assert!(profile_reply(&uncut, false).is_none());
}

#[test]
fn names_are_verified() {
    let data = json::read("{\"names\":{\"_\":\"ABCD\",\"bob\":\"ef\"}}").unwrap();
    assert!(verify_nip05(&data, "_@x.y", "abcd"));
    assert!(!verify_nip05(&data, "bob@x.y", "abcd"));
    assert!(!verify_nip05(&data, "bob", "ef"));
    assert_eq!(listed_key(&data, "bob").unwrap(), "ef");
    assert_eq!(
        nip05_command("bob@x.y"),
        Ok("https://x.y/.well-known/nostr.json?name=bob".to_string())
    );
    assert!(matches!(nip05_command("bob"), Err(e) if e.starts_with("⚠️ Invalid format.")));
    assert!(matches!(nip05_command("@x"), Err(e) if e.starts_with("⚠️ Invalid format.")));
    assert!(matches!(nip05_command(""), Err(e) if e.starts_with("Usage: !nip05")));
    assert_eq!(nip05_reply("bob@x.y", Some("ef"), Some("npub1b")), "✅ Verified: bob@x.y → npub1b");
    assert_eq!(nip05_reply("bob@x.y", Some("ef"), None), "✅ Verified: bob@x.y → ef");
    assert_eq!(nip05_reply("bob@x.y", None, None), "❌ Not verified: bob@x.y not found");
}

#[test]
fn contact_lists_are_read() {
    let e = json::read("{\"tags\":[[\"p\",\"aa\",\"wss://r\",1],[\"e\",\"x\"],[\"p\"],[\"p\",\"bb\"]]}").unwrap();
    let c = read_contacts(Some(&e));
    assert_eq!(
        c,
        vec![
            vec!["p".to_string(), "aa".to_string(), "wss://r".to_string(), "".to_string()],
            vec!["p".to_string(), "bb".to_string()],
        ]
    );
    assert!(read_contacts(None).is_empty());
}

#[test]
fn a_follow_keeps_who_is_followed() {
    let (stage, action) = follow_command(" bob ", true);
    assert!(matches!(action, FollowAction::Resolve(ref n) if n == "bob"));
    let (stage, action) =
        follow_next("bob", "npub1bot", &stage, FollowEvent::Resolved(Some("cc"))).unwrap();
    assert!(matches!(action, FollowAction::Resolve(ref n) if n == "npub1bot"));
    let (stage, action) =
        follow_next("bob", "npub1bot", &stage, FollowEvent::Resolved(Some("dd"))).unwrap();
    assert!(matches!(action, FollowAction::FetchContacts(ref n) if n == "dd"));
    let printed = "{\"kind\":3,\"tags\":[[\"p\",\"aa\"]]}";
    let (stage, action) =
        follow_next("bob", "npub1bot", &stage, FollowEvent::Fetched(Ran::Output(printed))).unwrap();
    match action {
        FollowAction::Publish(j) => assert_eq!(
            json::write(&j),
            "{\"content\":\"\",\"kind\":3,\"tags\":[[\"p\",\"aa\"],[\"p\",\"cc\"]]}"
        ),
        _ => panic!("the list is published"),
    }
    let (stage, action) =
        follow_next("bob", "npub1bot", &stage, FollowEvent::Published(Ran::Output("{\"id\":1}"))).unwrap();
    assert!(matches!(stage, FollowStage::Done));
    assert!(matches!(action, FollowAction::Reply(r) if r == "✅ Now following bob (total: 2 follows)"));
}

#[test]
fn a_follow_can_be_refused() {
    let (_, action) = follow_command("", true);
    assert!(matches!(action, FollowAction::Reply(r) if r.starts_with("Usage: !follow")));
    let (_, action) = follow_command("bob", false);
    assert!(matches!(action, FollowAction::Reply(r) if r.starts_with("⚠️ Bot does not have an nsec")));
    let stage = FollowStage::Contacts { target: "aa".to_string() };
    let printed = "{\"kind\":3,\"tags\":[[\"p\",\"aa\"]]}";
    let (_, action) =
        follow_next("bob", "b", &stage, FollowEvent::Fetched(Ran::Output(printed))).unwrap();
    assert!(matches!(action, FollowAction::Reply(r) if r == "ℹ️ Already following bob."));
    assert!(follow_next("bob", "b", &FollowStage::Done, FollowEvent::NotStarted).is_none());
}
