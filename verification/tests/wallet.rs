use concord_bots::community::Database;
use concord_bots::config::BotConfig;
use concord_bots::handlers::nostr_cmds::Ran;
use concord_bots::handlers::wallet_cmds::{
    balance_command, deposit_command, deposit_reply, mint_display, reward_tip, reward_zap,
    tip_command, tip_failure, tip_reply, withdraw_command, withdraw_reply, zap_command, zap_next,
    ZapAction, ZapEvent, ZapStage,
};
use concord_bots::json;
use concord_bots::nip98::{auth_tags, build_auth_header};
use concord_bots::npub_cash::{balance, balance_url, claim, claim_announcement, claim_url};
use concord_bots::wallet::{
    check_balance, check_funds, create_seed, invoice_in, invoice_url, payment_endpoint, raw_seed,
    read_seed, SeedError,
};

const NOW: i64 = 1_700_000_000;

#[test]
fn balances_are_told() {
    assert_eq!(mint_display("https://mint.example.com/Bitcoin"), "mint.example.com");
    assert_eq!(mint_display("mint.example.com/x"), "mint.example.com");
    assert_eq!(
        balance_command(Some(("https://m.e/", Some(21)))),
        "💰 Wallet: 21 sats (m.e)"
    );
    assert!(balance_command(Some(("m", None))).starts_with("⚠️ Could not check wallet balance."));
    assert!(balance_command(None).starts_with("💰 Wallet not initialized."));
}

#[test]
fn tips_are_read() {
    assert_eq!(tip_command(true, "21"), Ok((21, None)));
    assert_eq!(tip_command(true, " 21  Thanks a lot "), Ok((21, Some("Thanks a lot".to_string()))));
    assert!(matches!(tip_command(true, "0"), Err(e) if e.starts_with("⚠️ Please provide")));
    assert!(matches!(tip_command(true, "x"), Err(e) if e.starts_with("⚠️ Please provide")));
    assert!(matches!(tip_command(true, ""), Err(e) if e.starts_with("Usage: !tip")));
    assert!(matches!(tip_command(false, "21"), Err(e) if e.starts_with("💰 Wallet not initialized.")));
    assert_eq!(tip_reply(21, "cashuA", Some("hi")), "💸 21 sats up for grabs: cashuA\nMemo: hi");
    assert_eq!(tip_reply(21, "cashuA", None), "💸 21 sats up for grabs: cashuA");
    assert_eq!(
        tip_failure(21, "Insufficient balance"),
        "❌ Insufficient balance for a 21 sat tip. Use !deposit to add funds."
    );
    assert_eq!(tip_failure(21, "x"), "⚠️ Could not create tip. The mint may be unreachable.");
}

#[test]
fn deposits_and_withdrawals_are_read() {
    assert_eq!(deposit_command(true, ""), Ok(1000));
    assert_eq!(deposit_command(true, "100"), Ok(100));
    assert_eq!(deposit_command(true, "99"), Err("⚠️ Minimum deposit is 100 sats.".to_string()));
    assert!(matches!(deposit_command(true, "x"), Err(e) if e.starts_with("Usage: !deposit")));
    assert_eq!(
        deposit_reply(100, Some("lnbc1")),
        "⚡ Deposit 100 sats:\nlnbc1\n\nPay the invoice to fund the wallet."
    );
    assert_eq!(withdraw_command(true, " lnbc1 "), Ok("lnbc1".to_string()));
    assert!(matches!(withdraw_command(true, "bc1"), Err(e) if e.starts_with("⚠️ That doesn't look like")));
    assert!(matches!(withdraw_command(true, ""), Err(e) if e.starts_with("Usage: !withdraw")));
    assert_eq!(withdraw_reply(Ok(5)), "✅ Paid 5 sats!");
    assert!(withdraw_reply(Err("Insufficient")).starts_with("❌ Insufficient balance"));
    assert!(withdraw_reply(Err("x")).starts_with("⚠️ Could not pay invoice."));
}

#[test]
fn rewards_are_given() {
    let mut db = Database::new();
    reward_tip(&mut db, Some("npub1a"), 21, "c", NOW);
    assert_eq!((db.get_user("npub1a").xp, db.get_user("npub1a").sats_tipped), (5, 21));
    reward_zap(&mut db, Some("npub1a"), "npub1b", 7, "c", NOW);
    assert_eq!((db.get_user("npub1a").xp, db.get_user("npub1a").sats_zapped), (10, 7));
    assert_eq!(db.get_user("npub1b").xp, 10);
    reward_tip(&mut db, None, 21, "c", NOW);
    assert_eq!(db.get_user("npub1a").sats_tipped, 21);
}

#[test]
fn a_zap_goes_through() {
    let z = match zap_command("nostr:npub1b 21 Great post!", true, true) {
        Ok(z) => z,
        Err(_) => panic!("the zap is well formed"),
    };
    assert_eq!((z.npub.as_str(), z.sats, z.message.as_str()), ("npub1b", 21, "Great post!"));
    let (stage, action) = zap_next(&z, &ZapStage::Key, ZapEvent::Resolved(Some("ab"))).unwrap();
    assert!(matches!(action, ZapAction::FetchProfile(h) if h == "ab"));
    let printed = "{\"content\":\"{\\\"lud16\\\":\\\"bob@x.y\\\"}\"}";
    let (stage, action) = zap_next(&z, &stage, ZapEvent::Profile(Ran::Output(printed))).unwrap();
    assert!(matches!(action, ZapAction::Fetch(u) if u == "https://x.y/.well-known/lnurlp/bob"));
    let offer = json::read("{\"allowsNostr\":true,\"callback\":\"https://x.y/cb\"}").unwrap();
    let (stage, action) = zap_next(&z, &stage, ZapEvent::Fetched(Some(&offer))).unwrap();
    assert!(matches!(action, ZapAction::EncodeLnurl(u) if u == "https://x.y/.well-known/lnurlp/bob"));
    let (stage, action) = zap_next(&z, &stage, ZapEvent::Encoded(Some("lnurl1x"))).unwrap();
    match action {
        ZapAction::Sign(j) => assert_eq!(
            json::write(&j),
            "{\"content\":\"Great post!\",\"kind\":9734,\"tags\":[[\"relays\",\"wss://relay.ditto.pub\",\"wss://relay.primal.net\"],[\"amount\",\"21000\"],[\"p\",\"ab\"],[\"lnurl\",\"lnurl1x\"]]}"
        ),
        _ => panic!("the request is signed"),
    }
    let (stage, action) = zap_next(&z, &stage, ZapEvent::Signed(Some("{\"id\": \"é\"}"))).unwrap();
    assert!(matches!(action, ZapAction::Fetch(u) if u == "https://x.y/cb?amount=21000&nostr=%7B%22id%22%3A%20%22%C3%A9%22%7D"));
    let invoice = json::read("{\"pr\":\"lnbc1\"}").unwrap();
    let (stage, action) = zap_next(&z, &stage, ZapEvent::Fetched(Some(&invoice))).unwrap();
    assert!(matches!(action, ZapAction::Pay(i) if i == "lnbc1"));
    let (stage, action) = zap_next(&z, &stage, ZapEvent::Paid).unwrap();
    assert!(matches!(stage, ZapStage::Zapped));
    assert!(matches!(action, ZapAction::Reply(r) if r == "⚡ Zapped npub1b 21 sats! (NIP-57 receipt published by recipient's service)"));
}

#[test]
fn a_zap_can_stop_anywhere() {
    let z = match zap_command("npub1b 21", true, true) {
        Ok(z) => z,
        Err(_) => panic!("the zap is well formed"),
    };
    let says = |stage: ZapStage, event: ZapEvent| match zap_next(&z, &stage, event) {
        Some((ZapStage::Stopped, ZapAction::Reply(r))) => r,
        _ => panic!("the zap stops"),
    };
    let ab = || "ab".to_string();
    assert_eq!(
        says(ZapStage::Key, ZapEvent::Resolved(None)),
        "⚠️ Could not resolve npub \"npub1b\"."
    );
    assert_eq!(
        says(ZapStage::Profile { hex: ab() }, ZapEvent::Profile(Ran::TimedOut)),
        "⚠️ Couldn't fetch recipient's Nostr profile. Try again later."
    );
    assert_eq!(
        says(ZapStage::Profile { hex: ab() }, ZapEvent::Profile(Ran::Output("{\"content\":\"{}\"}"))),
        "⚠️ Recipient doesn't have a Lightning address configured."
    );
    assert_eq!(
        says(
            ZapStage::Profile { hex: ab() },
            ZapEvent::Profile(Ran::Output("{\"content\":\"{\\\"lud16\\\":\\\"bob\\\"}\"}"))
        ),
        "⚠️ Recipient has an invalid Lightning address."
    );
    let service = || ZapStage::Service { hex: ab(), address: "a".to_string() };
    assert_eq!(
        says(service(), ZapEvent::Fetched(None)),
        "⚠️ Couldn't reach recipient's Lightning service."
    );
    let closed = json::read("{\"callback\":\"c\"}").unwrap();
    assert_eq!(
        says(service(), ZapEvent::Fetched(Some(&closed))),
        "⚠️ Recipient's Lightning service doesn't support Nostr zaps."
    );
    let mute = json::read("{\"allowsNostr\":true}").unwrap();
    assert_eq!(
        says(service(), ZapEvent::Fetched(Some(&mute))),
        "⚠️ Recipient's Lightning service is misconfigured (no callback URL)."
    );
    assert_eq!(
        says(ZapStage::Sign { callback: ab() }, ZapEvent::Signed(None)),
        "⚠️ Failed to create signed zap request."
    );
    assert_eq!(
        says(ZapStage::Invoice, ZapEvent::Fetched(Some(&mute))),
        "⚠️ Lightning service didn't return an invoice."
    );
    assert_eq!(
        says(ZapStage::Pay, ZapEvent::Unpaid("timeout")),
        "⚠️ Could not pay the Lightning invoice. The mint may be unreachable."
    );
    assert!(matches!(
        zap_next(&z, &ZapStage::Pay, ZapEvent::Unpaid("Insufficient funds")),
        Some((ZapStage::Balance, ZapAction::CheckBalance))
    ));
    assert_eq!(
        says(ZapStage::Balance, ZapEvent::Balance(3)),
        "❌ Not enough sats in wallet. Current balance: 3 sats"
    );
    assert!(zap_next(&z, &ZapStage::Key, ZapEvent::Paid).is_none());
}

#[test]
fn zaps_are_refused() {
    let why = |args: &str, wallet: bool, nsec: bool| match zap_command(args, wallet, nsec) {
        Ok(_) => panic!("the zap is refused"),
        Err(e) => e,
    };
    assert!(why("", true, true).starts_with("Usage: !zap"));
    assert!(why("bob 21", true, true).starts_with("⚠️ That doesn't look like a valid npub."));
    assert!(why("npub1b", true, true).starts_with("⚠️ Please provide a valid positive number"));
    assert!(why("npub1b 21", false, true).starts_with("💰 Wallet not initialized."));
    assert!(why("npub1b 21", true, false).starts_with("⚠️ Bot does not have an nsec"));
}

#[test]
fn requests_are_authenticated() {
    let tags = auth_tags("https://x.y/api", "POST", Some(&b"abc".to_vec()));
    assert_eq!(
        tags,
        vec![
            ("u".to_string(), "https://x.y/api".to_string()),
            ("method".to_string(), "POST".to_string()),
            (
                "payload".to_string(),
                "ba7816bf8f01cfea414140de5dae2223b00361a396177a9cb410ff61f20015ad".to_string()
            ),
        ]
    );
    assert_eq!(auth_tags("u", "GET", None).len(), 2);
    assert_eq!(build_auth_header("{\"a\":1}"), "Nostr eyJhIjoxfQ==");
    for (text, shown) in
        [("", ""), ("f", "Zg=="), ("fo", "Zm8="), ("foo", "Zm9v"), ("foob", "Zm9vYg=="), ("~~?ÿ", "fn4/w78=")]
    {
        assert_eq!(build_auth_header(text), format!("Nostr {}", shown));
    }
}

#[test]
fn claims_are_read() {
    let config = BotConfig::default();
    assert!(claim_url("https://npub.cash").starts_with("https://npub.cash/"));
    assert!(balance_url("https://npub.cash").starts_with("https://npub.cash/"));
    assert_ne!(claim_url(&config.npub_cash.url), balance_url(&config.npub_cash.url));
    let empty = json::read("{\"error\":true,\"message\":\"No proofs to claim\"}").unwrap();
    match claim(&empty) {
        Ok(c) => assert!(c.tokens.is_empty() && c.total_sats == 0),
        Err(_) => panic!("nothing to claim is no error"),
    }
    assert!(claim_announcement(21).contains("21"));
    let b = json::read("{\"data\":21}").unwrap();
    assert_eq!(balance(&b), 21);
    assert_eq!(balance(&json::read("{}").unwrap()), 0);
}

#[test]
fn seeds_are_read_back() {
    let written = create_seed().unwrap();
    let seed = match read_seed(written) {
        Ok(s) => s,
        Err(_) => panic!("a seed that was written is read"),
    };
    assert_eq!(seed.len(), 64);
    // The test vector of the mnemonic standard, with no passphrase.
    let words = "abandon abandon abandon abandon abandon abandon abandon abandon abandon abandon abandon about";
    let seed = match read_seed(format!(" {}\n", words).into_bytes()) {
        Ok(s) => s,
        Err(_) => panic!("the words are a mnemonic"),
    };
    assert_eq!(&seed[..8], &[0x5e, 0xb0, 0x0b, 0xbd, 0xdc, 0xf0, 0x69, 0x08]);
    assert!(matches!(read_seed(b"no such words".to_vec()), Err(SeedError::BadMnemonic)));
    assert!(matches!(read_seed(vec![0xff, 0xfe]), Err(SeedError::NotText)));
    // Sixty-four bytes are a seed themselves.
    assert!(matches!(read_seed(vec![0xff; 64]), Ok(s) if s == vec![0xff; 64]));
    assert!(matches!(raw_seed(vec![1; 64]), Ok(s) if s.len() == 64));
    assert!(matches!(raw_seed(vec![1; 3]), Err(e) if e.contains('3')));
}

#[test]
fn payouts_stay_within_limits() {
    assert!(check_funds(10, 10).is_ok());
    assert!(check_funds(9, 10).is_err());
    assert!(check_balance(10, 10).is_ok());
    assert!(check_balance(9, 10).is_err());
    assert_eq!(
        payment_endpoint("bob@x.y"),
        Ok("https://x.y/.well-known/lnurlp/bob".to_string())
    );
    assert!(payment_endpoint("bob").is_err());
    let offer = json::read("{\"callback\":\"https://x.y/cb\",\"minSendable\":1000,\"maxSendable\":100000}").unwrap();
    assert_eq!(invoice_url(&offer, 21), Ok("https://x.y/cb?amount=21000".to_string()));
    assert!(invoice_url(&offer, 101).is_err());
    assert!(invoice_url(&json::read("{}").unwrap(), 21).is_err());
    assert_eq!(invoice_in(&json::read("{\"pr\":\"lnbc1\"}").unwrap()), Ok("lnbc1".to_string()));
    assert!(invoice_in(&json::read("{}").unwrap()).is_err());
}
