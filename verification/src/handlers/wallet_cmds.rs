//! Wallet commands: balance, tips, deposits, withdrawals and zaps.

use vstd::prelude::*;
use crate::community::{CommunityView, Database, UserRow};
use crate::handlers::nostr_cmds;
use crate::handlers::nostr_cmds::Ran;
use crate::json::{Json, JsonView};
use crate::{community, handlers, json, nak, number, text, url};

verus! {

/// What is said where the bot has no wallet.
pub open spec fn no_wallet() -> Seq<char> {
    "💰 Wallet not initialized. Ask the bot owner to enable it."@
}

fn missing_wallet() -> (r: String)
    ensures
        r@ == no_wallet(),
{
    "💰 Wallet not initialized. Ask the bot owner to enable it.".to_owned()
}

// ---------------------------------------------------------------------------
// !balance
// ---------------------------------------------------------------------------

/// What follows the first two slashes in a row.
pub open spec fn after_slashes(s: Seq<char>) -> Option<Seq<char>>
    decreases s.len(),
{
    if s.len() < 2 {
        None
    } else if s[0] == '/' && s[1] == '/' {
        Some(s.skip(2))
    } else {
        after_slashes(s.drop_first())
    }
}

/// The host of a mint's address.
pub open spec fn mint_host(mint: Seq<char>) -> Seq<char> {
    let rest = match after_slashes(mint) {
        Some(t) => t,
        None => mint,
    };
    rest.take(text::first_of(rest, '/'))
}

fn behind_slashes<'a>(s: &'a str) -> (r: Option<&'a str>)
    ensures
        text::opt_str_view(r) == after_slashes(s@),
{
    let chars = text::chars_of(s);
    let n: usize = chars.len();
    let mut i: usize = 0;
    proof {
        assert(s@.skip(0) =~= s@);
    }
    while n - i >= 2
        invariant
            i <= n,
            n == chars.len(),
            chars@ == s@,
            after_slashes(s@) == after_slashes(s@.skip(i as int)),
        decreases n - i,
    {
        if chars[i] == '/' && chars[i + 1] == '/' {
            let r = s.substring_char(i + 2, n);
            proof {
                assert(r@ =~= s@.skip(i as int).skip(2));
            }
            return Some(r);
        }
        proof {
            assert(s@.skip(i as int).drop_first() =~= s@.skip(i + 1));
        }
        i = i + 1;
    }
    None
}

/// The host of a mint's address.
pub fn mint_display(mint: &str) -> (r: String)
    ensures
        r@ == mint_host(mint@),
{
    let rest = match behind_slashes(mint) {
        Some(t) => t,
        None => mint,
    };
    let n: usize = text::find_char(rest, '/');
    let host = rest.substring_char(0, n);
    proof {
        assert(host@ =~= rest@.take(n as int));
    }
    host.to_owned()
}

/// Answers `!balance`, given the mint and, where it answered, the balance.
pub fn balance_command(wallet: Option<(&str, Option<u64>)>) -> (r: String)
    ensures
        r@ == match wallet {
            None => "💰 Wallet not initialized. Ask the bot owner to enable the Cashu wallet in bot.toml.\nSee `!help` for available commands."@,
            Some((mint, None)) => "⚠️ Could not check wallet balance. The mint may be unreachable."@,
            Some((mint, Some(sats))) => "💰 Wallet: "@ + number::decimal(sats as nat) + " sats ("@
                + mint_host(mint@) + ")"@,
        },
{
    match wallet {
        None => "💰 Wallet not initialized. Ask the bot owner to enable the Cashu wallet in bot.toml.\nSee `!help` for available commands.".to_owned(),
        Some((mint, None)) => "⚠️ Could not check wallet balance. The mint may be unreachable.".to_owned(),
        Some((mint, Some(sats))) => text::cat5(
            "💰 Wallet: ",
            number::show(sats).as_str(),
            " sats (",
            mint_display(mint).as_str(),
            ")",
        ),
    }
}

// ---------------------------------------------------------------------------
// Amounts and rewards
// ---------------------------------------------------------------------------

/// A positive amount of sats.
pub open spec fn amount_of(s: Seq<char>) -> Option<u64> {
    match number::unsigned_parsed(s, u64::MAX as nat) {
        Some(n) => if n > 0 {
            Some(n as u64)
        } else {
            None
        },
        None => None,
    }
}

fn parse_amount(s: &str) -> (r: Option<u64>)
    ensures
        r == amount_of(s@),
{
    match number::parse_u64(s) {
        Some(n) => if n > 0 {
            Some(n)
        } else {
            None
        },
        None => None,
    }
}

/// The tables once a user got experience; what would not fit is not awarded.
pub open spec fn awarded(
    db: CommunityView,
    npub: Seq<char>,
    amount: i64,
    chat: Seq<char>,
    now: i64,
) -> CommunityView {
    if community::fits(db.user(npub, now).xp + amount) {
        db.with_award(npub, amount, chat, now)
    } else {
        db
    }
}

/// The tables once a user tipped sats; what would not fit is not counted.
pub open spec fn tip_counted(db: CommunityView, npub: Seq<char>, sats: i64, now: i64) -> CommunityView {
    let u = db.user(npub, now);
    if community::fits(u.sats_tipped + sats) {
        db.with_user(npub, UserRow { sats_tipped: (u.sats_tipped + sats) as i64, ..u })
    } else {
        db
    }
}

/// The tables once a user zapped sats; what would not fit is not counted.
pub open spec fn zap_counted(db: CommunityView, npub: Seq<char>, sats: i64, now: i64) -> CommunityView {
    let u = db.user(npub, now);
    if community::fits(u.sats_zapped + sats) {
        db.with_user(npub, UserRow { sats_zapped: (u.sats_zapped + sats) as i64, ..u })
    } else {
        db
    }
}

fn award(db: &mut Database, npub: &str, amount: i64, chat_id: &str, now: i64)
    ensures
        final(db)@ == awarded(old(db)@, npub@, amount, chat_id@, now),
{
    let _ = db.award_xp(npub, amount, chat_id, now);
}

/// The tables once a tip is rewarded: five points for the sender, and the sats are counted.
pub open spec fn tip_rewarded(
    db: CommunityView,
    sender: Option<Seq<char>>,
    sats: i64,
    chat: Seq<char>,
    now: i64,
) -> CommunityView {
    match sender {
        Some(npub) => tip_counted(awarded(db, npub, 5, chat, now), npub, sats, now),
        None => db,
    }
}

/// Rewards a tip.
pub fn reward_tip(db: &mut Database, sender: Option<&str>, sats: u64, chat_id: &str, now: i64)
    ensures
        final(db)@ == tip_rewarded(
            old(db)@,
            text::opt_str_view(sender),
            sats as i64,
            chat_id@,
            now,
        ),
{
    if let Some(npub) = sender {
        award(db, npub, 5, chat_id, now);
        let _ = db.add_sats_tipped(npub, #[verifier::truncate] (sats as i64), now);
    }
}

/// The tables once a zap is rewarded: five points for the sender, ten for the recipient, and the
/// sats are counted.
pub open spec fn zap_rewarded(
    db: CommunityView,
    sender: Option<Seq<char>>,
    recipient: Seq<char>,
    sats: i64,
    chat: Seq<char>,
    now: i64,
) -> CommunityView {
    awarded(
        match sender {
            Some(npub) => zap_counted(awarded(db, npub, 5, chat, now), npub, sats, now),
            None => db,
        },
        recipient,
        10,
        chat,
        now,
    )
}

/// Rewards a zap.
pub fn reward_zap(
    db: &mut Database,
    sender: Option<&str>,
    recipient: &str,
    sats: u64,
    chat_id: &str,
    now: i64,
)
    ensures
        final(db)@ == zap_rewarded(
            old(db)@,
            text::opt_str_view(sender),
            recipient@,
            sats as i64,
            chat_id@,
            now,
        ),
{
    if let Some(npub) = sender {
        award(db, npub, 5, chat_id, now);
        let _ = db.add_sats_zapped(npub, #[verifier::truncate] (sats as i64), now);
    }
    award(db, recipient, 10, chat_id, now);
}

// ---------------------------------------------------------------------------
// !tip
// ---------------------------------------------------------------------------

/// The memo of a tip, if it has one.
pub open spec fn memo_of(args: Seq<char>) -> Option<Seq<char>> {
    match text::tail_words(text::trimmed(args)) {
        Some(rest) => if text::trimmed(rest).len() > 0 {
            Some(text::trimmed(rest))
        } else {
            None
        },
        None => None,
    }
}

/// Why there is no tip, if there is none.
pub open spec fn tip_refusal(has_wallet: bool, args: Seq<char>) -> Option<Seq<char>> {
    if !has_wallet {
        Some(no_wallet())
    } else if text::trimmed(args).len() == 0 {
        Some("Usage: !tip <sats> [memo]\nExample: !tip 21 Thanks for the help!"@)
    } else if amount_of(text::head_word(text::trimmed(args))) is None {
        Some("⚠️ Please provide a valid positive number of sats.\nExample: !tip 21"@)
    } else {
        None
    }
}

/// The amount and the memo of a tip, or why there is none.
pub fn tip_command(has_wallet: bool, args: &str) -> (r: Result<(u64, Option<String>), String>)
    ensures
        match r {
            Ok(t) => tip_refusal(has_wallet, args@) is None && amount_of(
                text::head_word(text::trimmed(args@)),
            ) == Some(t.0) && text::opt_view(t.1) == memo_of(args@),
            Err(why) => tip_refusal(has_wallet, args@) == Some(why@),
        },
{
    if !has_wallet {
        return Err(missing_wallet());
    }
    let a = text::trim(args);
    if a.is_empty() {
        return Err("Usage: !tip <sats> [memo]\nExample: !tip 21 Thanks for the help!".to_owned());
    }
    let (head, tail) = text::split_word(a);
    match parse_amount(head) {
        None => Err(
            "⚠️ Please provide a valid positive number of sats.\nExample: !tip 21".to_owned(),
        ),
        Some(sats) => {
            let memo = match tail {
                Some(rest) => {
                    let m = text::trim(rest);
                    if m.is_empty() {
                        None
                    } else {
                        Some(m.to_owned())
                    }
                },
                None => None,
            };
            Ok((sats, memo))
        },
    }
}

/// The reply with the token of a tip.
pub fn tip_reply(sats: u64, token: &str, memo: Option<&str>) -> (r: String)
    ensures
        r@ == "💸 "@ + number::decimal(sats as nat) + " sats up for grabs: "@ + token@ + (match memo {
            Some(m) => "\nMemo: "@ + m@,
            None => ""@,
        }),
{
    let note = match memo {
        Some(m) => text::cat2("\nMemo: ", m),
        None => "".to_owned(),
    };
    text::cat5("💸 ", number::show(sats).as_str(), " sats up for grabs: ", token, note.as_str())
}

/// The reply where a tip failed.
pub fn tip_failure(sats: u64, detail: &str) -> (r: String)
    ensures
        r@ == if text::has_substring(detail@, "Insufficient"@) {
            "❌ Insufficient balance for a "@ + number::decimal(sats as nat)
                + " sat tip. Use !deposit to add funds."@
        } else {
            "⚠️ Could not create tip. The mint may be unreachable."@
        },
{
    if text::contains(detail, "Insufficient") {
        text::cat3(
            "❌ Insufficient balance for a ",
            number::show(sats).as_str(),
            " sat tip. Use !deposit to add funds.",
        )
    } else {
        "⚠️ Could not create tip. The mint may be unreachable.".to_owned()
    }
}

// ---------------------------------------------------------------------------
// !deposit and !withdraw
// ---------------------------------------------------------------------------

/// The amount of a deposit: a thousand sats where none is given.
pub open spec fn deposit_amount(args: Seq<char>) -> Option<u64> {
    if text::trimmed(args).len() == 0 {
        Some(1000)
    } else {
        amount_of(text::trimmed(args))
    }
}

/// Why there is no deposit, if there is none.
pub open spec fn deposit_refusal(has_wallet: bool, args: Seq<char>) -> Option<Seq<char>> {
    if !has_wallet {
        Some(no_wallet())
    } else {
        match deposit_amount(args) {
            None => Some("Usage: !deposit [sats]\nExample: !deposit 1000"@),
            Some(sats) => if sats < 100 {
                Some("⚠️ Minimum deposit is 100 sats."@)
            } else {
                None
            },
        }
    }
}

/// The amount of a deposit, or why there is none.
pub fn deposit_command(has_wallet: bool, args: &str) -> (r: Result<u64, String>)
    ensures
        match r {
            Ok(sats) => deposit_refusal(has_wallet, args@) is None && deposit_amount(args@) == Some(
                sats,
            ),
            Err(why) => deposit_refusal(has_wallet, args@) == Some(why@),
        },
{
    if !has_wallet {
        return Err(missing_wallet());
    }
    let a = text::trim(args);
    let sats: u64 = if a.is_empty() {
        1000
    } else {
        match parse_amount(a) {
            Some(n) => n,
            None => {
                return Err("Usage: !deposit [sats]\nExample: !deposit 1000".to_owned());
            },
        }
    };
    if sats < 100 {
        return Err("⚠️ Minimum deposit is 100 sats.".to_owned());
    }
    Ok(sats)
}

/// The reply with the invoice of a deposit, where the mint answered.
pub fn deposit_reply(sats: u64, invoice: Option<&str>) -> (r: String)
    ensures
        r@ == match invoice {
            Some(i) => "⚡ Deposit "@ + number::decimal(sats as nat) + " sats:\n"@ + i@
                + "\n\nPay the invoice to fund the wallet."@,
            None => "⚠️ Could not generate deposit invoice. The mint may be unreachable."@,
        },
{
    match invoice {
        Some(i) => text::cat5(
            "⚡ Deposit ",
            number::show(sats).as_str(),
            " sats:\n",
            i,
            "\n\nPay the invoice to fund the wallet.",
        ),
        None => "⚠️ Could not generate deposit invoice. The mint may be unreachable.".to_owned(),
    }
}

/// Why nothing is withdrawn, if nothing is.
pub open spec fn withdraw_refusal(has_wallet: bool, args: Seq<char>) -> Option<Seq<char>> {
    if !has_wallet {
        Some(no_wallet())
    } else if text::trimmed(args).len() == 0 {
        Some("Usage: !withdraw <invoice>\nExample: !withdraw lnbc10u1p3..."@)
    } else if !"lnbc"@.is_prefix_of(text::trimmed(args)) {
        Some(
            "⚠️ That doesn't look like a Lightning invoice. Invoices start with \"lnbc\"."@,
        )
    } else {
        None
    }
}

/// The invoice that `!withdraw` pays, or why it pays none.
pub fn withdraw_command(has_wallet: bool, args: &str) -> (r: Result<String, String>)
    ensures
        match r {
            Ok(invoice) => withdraw_refusal(has_wallet, args@) is None && invoice@ == text::trimmed(
                args@,
            ),
            Err(why) => withdraw_refusal(has_wallet, args@) == Some(why@),
        },
{
    if !has_wallet {
        return Err(missing_wallet());
    }
    let invoice = text::trim(args);
    if invoice.is_empty() {
        return Err("Usage: !withdraw <invoice>\nExample: !withdraw lnbc10u1p3...".to_owned());
    }
    if !text::starts_with(invoice, "lnbc") {
        return Err(
            "⚠️ That doesn't look like a Lightning invoice. Invoices start with \"lnbc\".".to_owned(),
        );
    }
    Ok(invoice.to_owned())
}

/// What is said before an invoice is paid.
pub fn withdraw_notice() -> (r: &'static str)
    ensures
        r@ == "⏳ Processing payment..."@,
{
    "⏳ Processing payment..."
}

/// The reply once an invoice was paid, or why not.
pub fn withdraw_reply(outcome: Result<u64, &str>) -> (r: String)
    ensures
        r@ == match outcome {
            Ok(sats) => "✅ Paid "@ + number::decimal(sats as nat) + " sats!"@,
            Err(detail) => if text::has_substring(detail@, "Insufficient"@) {
                "❌ Insufficient balance to pay this invoice. Use !deposit to add funds."@
            } else {
                "⚠️ Could not pay invoice. It may be expired, invalid, or the mint is unreachable."@
            },
        },
{
    match outcome {
        Ok(sats) => text::cat3("✅ Paid ", number::show(sats).as_str(), " sats!"),
        Err(detail) => if text::contains(detail, "Insufficient") {
            "❌ Insufficient balance to pay this invoice. Use !deposit to add funds.".to_owned()
        } else {
            "⚠️ Could not pay invoice. It may be expired, invalid, or the mint is unreachable.".to_owned()
        },
    }
}

// ---------------------------------------------------------------------------
// !zap
// ---------------------------------------------------------------------------

/// A zap: whom, how much, and with what words.
pub struct Zap {
    pub npub: String,
    pub sats: u64,
    pub message: String,
}

/// What a zap says.
pub struct ZapView {
    pub npub: Seq<char>,
    pub sats: u64,
    pub message: Seq<char>,
}

impl View for Zap {
    type V = ZapView;

    open spec fn view(&self) -> ZapView {
        ZapView { npub: self.npub@, sats: self.sats, message: self.message@ }
    }
}

/// What follows the first word.
pub open spec fn tail_of(s: Seq<char>) -> Seq<char> {
    text::or_else(text::tail_words(s), ""@)
}

/// The zap that the arguments name, or what to tell the user.
pub open spec fn zap_request(args: Seq<char>, has_wallet: bool, has_nsec: bool) -> Result<
    ZapView,
    Seq<char>,
> {
    let a = text::trimmed(args);
    let npub = handlers::plain_npub(text::head_word(a));
    let amount = amount_of(text::head_word(tail_of(a)));
    if a.len() == 0 {
        Err("Usage: !zap <npub> <sats> [message]\nExample: !zap npub1jrvd... 21 Great post!"@)
    } else if !"npub1"@.is_prefix_of(npub) {
        Err("⚠️ That doesn't look like a valid npub. Use npub1... or nostr:npub1..."@)
    } else if amount is None {
        Err(
            "⚠️ Please provide a valid positive number of sats.\nExample: !zap npub1... 21"@,
        )
    } else if !has_wallet {
        Err(no_wallet())
    } else if !has_nsec {
        Err("⚠️ Bot does not have an nsec configured. Cannot create zap requests."@)
    } else {
        Ok(ZapView { npub, sats: amount->0, message: tail_of(tail_of(a)) })
    }
}

/// Reads the arguments of `!zap`.
pub fn zap_command(args: &str, has_wallet: bool, has_nsec: bool) -> (r: Result<Zap, String>)
    ensures
        match (zap_request(args@, has_wallet, has_nsec), r) {
            (Ok(want), Ok(got)) => got@ == want,
            (Err(want), Err(got)) => got@ == want,
            _ => false,
        },
{
    let a = text::trim(args);
    if a.is_empty() {
        return Err(
            "Usage: !zap <npub> <sats> [message]\nExample: !zap npub1jrvd... 21 Great post!".to_owned(),
        );
    }
    let (head, tail) = text::split_word(a);
    let npub = handlers::normalize_npub(head);
    if !text::starts_with(npub.as_str(), "npub1") {
        return Err(
            "⚠️ That doesn't look like a valid npub. Use npub1... or nostr:npub1...".to_owned(),
        );
    }
    let rest = text::own_or(tail, "");
    let (amount, words) = text::split_word(rest.as_str());
    let sats: u64 = match parse_amount(amount) {
        Some(n) => n,
        None => {
            return Err(
                "⚠️ Please provide a valid positive number of sats.\nExample: !zap npub1... 21".to_owned(),
            );
        },
    };
    if !has_wallet {
        return Err(missing_wallet());
    }
    if !has_nsec {
        return Err(
            "⚠️ Bot does not have an nsec configured. Cannot create zap requests.".to_owned(),
        );
    }
    Ok(Zap { npub, sats, message: text::own_or(words, "") })
}

/// What is said before a zap.
pub fn zap_notice() -> (r: &'static str)
    ensures
        r@ == "⚡ Creating NIP-57 zap..."@,
{
    "⚡ Creating NIP-57 zap..."
}

/// How far a zap has come.
pub enum ZapStage {
    /// The recipient's key is looked up.
    Key,
    /// The recipient's profile is fetched.
    Profile { hex: String },
    /// The recipient's payment service is asked what it offers.
    Service { hex: String, address: String },
    /// The service's address is encoded.
    Encode { hex: String, callback: String },
    /// The request is signed.
    Sign { callback: String },
    /// The invoice is fetched.
    Invoice,
    /// The invoice is paid.
    Pay,
    /// The balance is checked because it was not enough.
    Balance,
    /// The zap went through.
    Zapped,
    /// It did not.
    Stopped,
}

/// How far a zap has come.
pub enum ZapStageView {
    Key,
    Profile { hex: Seq<char> },
    Service { hex: Seq<char>, address: Seq<char> },
    Encode { hex: Seq<char>, callback: Seq<char> },
    Sign { callback: Seq<char> },
    Invoice,
    Pay,
    Balance,
    Zapped,
    Stopped,
}

impl View for ZapStage {
    type V = ZapStageView;

    open spec fn view(&self) -> ZapStageView {
        match self {
            ZapStage::Key => ZapStageView::Key,
            ZapStage::Profile { hex } => ZapStageView::Profile { hex: hex@ },
            ZapStage::Service { hex, address } => ZapStageView::Service {
                hex: hex@,
                address: address@,
            },
            ZapStage::Encode { hex, callback } => ZapStageView::Encode {
                hex: hex@,
                callback: callback@,
            },
            ZapStage::Sign { callback } => ZapStageView::Sign { callback: callback@ },
            ZapStage::Invoice => ZapStageView::Invoice,
            ZapStage::Pay => ZapStageView::Pay,
            ZapStage::Balance => ZapStageView::Balance,
            ZapStage::Zapped => ZapStageView::Zapped,
            ZapStage::Stopped => ZapStageView::Stopped,
        }
    }
}

/// What a zap does next.
pub enum ZapAction {
    /// Fetch the profile of this key.
    FetchProfile(String),
    /// Fetch JSON from this address.
    Fetch(String),
    /// Encode this address as an lnurl.
    EncodeLnurl(String),
    /// Sign this event.
    Sign(Json),
    /// Pay this invoice.
    Pay(String),
    CheckBalance,
    /// Say this, and be done.
    Reply(String),
}

/// What a zap does next.
pub enum ZapActionView {
    FetchProfile(Seq<char>),
    Fetch(Seq<char>),
    EncodeLnurl(Seq<char>),
    Sign(JsonView),
    Pay(Seq<char>),
    CheckBalance,
    Reply(Seq<char>),
}

impl View for ZapAction {
    type V = ZapActionView;

    open spec fn view(&self) -> ZapActionView {
        match self {
            ZapAction::FetchProfile(s) => ZapActionView::FetchProfile(s@),
            ZapAction::Fetch(s) => ZapActionView::Fetch(s@),
            ZapAction::EncodeLnurl(s) => ZapActionView::EncodeLnurl(s@),
            ZapAction::Sign(j) => ZapActionView::Sign(j@),
            ZapAction::Pay(s) => ZapActionView::Pay(s@),
            ZapAction::CheckBalance => ZapActionView::CheckBalance,
            ZapAction::Reply(s) => ZapActionView::Reply(s@),
        }
    }
}

/// What came of a step of a zap.
pub enum ZapEvent<'a> {
    /// The recipient's key, if it was found.
    Resolved(Option<&'a str>),
    Profile(Ran<'a>),
    /// What was fetched, if it was.
    Fetched(Option<&'a Json>),
    /// The address as an lnurl, if it was encoded.
    Encoded(Option<&'a str>),
    /// The signed event, if it was signed.
    Signed(Option<&'a str>),
    Paid,
    /// The wallet could not pay, in these words.
    Unpaid(&'a str),
    Balance(u64),
}

/// A zap that ends with an answer.
pub open spec fn zap_ends(s: Seq<char>) -> (ZapStageView, ZapActionView) {
    (ZapStageView::Stopped, ZapActionView::Reply(s))
}

/// The Lightning address in a profile that was printed.
pub open spec fn lightning_address(output: Seq<char>) -> Option<Seq<char>> {
    match nak::printed_event(output) {
        Some(e) => match nak::profile_in(e).text_at("lud16"@) {
            Some(l) => if l.len() > 0 {
                Some(l)
            } else {
                None
            },
            None => None,
        },
        None => None,
    }
}

/// Where a Lightning address is paid.
pub open spec fn pay_address(user: Seq<char>, domain: Seq<char>) -> Seq<char> {
    "https://"@ + domain + "/.well-known/lnurlp/"@ + user
}

/// What follows once the profile was printed.
pub open spec fn profile_printed(hex: Seq<char>, output: Seq<char>) -> (ZapStageView, ZapActionView) {
    match lightning_address(output) {
        None => zap_ends("⚠️ Recipient doesn't have a Lightning address configured."@),
        Some(l) => match nostr_cmds::name_parts(l) {
            None => zap_ends("⚠️ Recipient has an invalid Lightning address."@),
            Some((user, domain)) => (
                ZapStageView::Service { hex, address: pay_address(user, domain) },
                ZapActionView::Fetch(pay_address(user, domain)),
            ),
        },
    }
}

/// What follows once the payment service told what it offers.
pub open spec fn service_told(hex: Seq<char>, address: Seq<char>, data: JsonView) -> (
    ZapStageView,
    ZapActionView,
) {
    if data.at("allowsNostr"@).boolean() != Some(true) {
        zap_ends("⚠️ Recipient's Lightning service doesn't support Nostr zaps."@)
    } else {
        match data.text_at("callback"@) {
            None => zap_ends(
                "⚠️ Recipient's Lightning service is misconfigured (no callback URL)."@,
            ),
            Some(callback) => (
                ZapStageView::Encode { hex, callback },
                ZapActionView::EncodeLnurl(address),
            ),
        }
    }
}

/// The amount of a zap in thousandths of a sat.
pub open spec fn millisats(z: ZapView) -> nat {
    (z.sats * 1000) as nat
}

/// The tags of a zap request.
pub open spec fn zap_tags(z: ZapView, hex: Seq<char>, lnurl: Seq<char>) -> Seq<Seq<Seq<char>>> {
    let tags = Seq::empty().push(
        Seq::empty().push("relays"@).push("wss://relay.ditto.pub"@).push(
            "wss://relay.primal.net"@,
        ),
    ).push(Seq::empty().push("amount"@).push(number::decimal(millisats(z)))).push(
        Seq::empty().push("p"@).push(hex),
    );
    if lnurl.len() > 0 {
        tags.push(Seq::empty().push("lnurl"@).push(lnurl))
    } else {
        tags
    }
}

/// A zap request as an event to be signed.
pub open spec fn zap_event(z: ZapView, hex: Seq<char>, lnurl: Seq<char>) -> JsonView {
    JsonView::Object(
        Seq::empty().push(("kind"@, JsonView::Number(number::decimal(9734)))).push(
            ("content"@, JsonView::Text(z.message)),
        ).push(("tags"@, json::table_array(zap_tags(z, hex, lnurl)))),
    )
}

/// Where the invoice for a signed request is fetched.
pub open spec fn invoice_address(z: ZapView, callback: Seq<char>, signed: Seq<char>) -> Seq<char> {
    callback + "?amount="@ + number::decimal(millisats(z)) + "&nostr="@ + url::percent_encoded(
        signed,
    )
}

/// What follows once the service answered with an invoice.
pub open spec fn invoice_told(data: JsonView) -> (ZapStageView, ZapActionView) {
    match data.text_at("pr"@) {
        Some(pr) => if pr.len() > 0 {
            (ZapStageView::Pay, ZapActionView::Pay(pr))
        } else {
            zap_ends("⚠️ Lightning service didn't return an invoice."@)
        },
        None => zap_ends("⚠️ Lightning service didn't return an invoice."@),
    }
}

/// The next step of a zap; none where the event does not belong to the stage.
pub open spec fn zap_step(z: ZapView, stage: ZapStageView, event: ZapEvent) -> Option<
    (ZapStageView, ZapActionView),
> {
    match (stage, event) {
        (ZapStageView::Key, ZapEvent::Resolved(key)) => match key {
            Some(hex) => Some(
                (ZapStageView::Profile { hex: hex@ }, ZapActionView::FetchProfile(hex@)),
            ),
            None => Some(zap_ends("⚠️ Could not resolve npub \""@ + z.npub + "\"."@)),
        },
        (ZapStageView::Profile { hex }, ZapEvent::Profile(ran)) => match ran {
            Ran::Output(o) => Some(profile_printed(hex, o@)),
            _ => Some(
                zap_ends("⚠️ Couldn't fetch recipient's Nostr profile. Try again later."@),
            ),
        },
        (ZapStageView::Service { hex, address }, ZapEvent::Fetched(data)) => match data {
            Some(d) => Some(service_told(hex, address, d@)),
            None => Some(zap_ends("⚠️ Couldn't reach recipient's Lightning service."@)),
        },
        (ZapStageView::Encode { hex, callback }, ZapEvent::Encoded(form)) => Some(
            (
                ZapStageView::Sign { callback },
                ZapActionView::Sign(
                    zap_event(z, hex, text::or_else(text::opt_str_view(form), ""@)),
                ),
            ),
        ),
        (ZapStageView::Sign { callback }, ZapEvent::Signed(signed)) => match signed {
            Some(s) => Some(
                (ZapStageView::Invoice, ZapActionView::Fetch(invoice_address(z, callback, s@))),
            ),
            None => Some(zap_ends("⚠️ Failed to create signed zap request."@)),
        },
        (ZapStageView::Invoice, ZapEvent::Fetched(data)) => match data {
            Some(d) => Some(invoice_told(d@)),
            None => Some(
                zap_ends("⚠️ Couldn't get invoice from recipient's Lightning service."@),
            ),
        },
        (ZapStageView::Pay, ZapEvent::Paid) => Some(
            (
                ZapStageView::Zapped,
                ZapActionView::Reply(
                    "⚡ Zapped "@ + z.npub + " "@ + number::decimal(z.sats as nat)
                        + " sats! (NIP-57 receipt published by recipient's service)"@,
                ),
            ),
        ),
        (ZapStageView::Pay, ZapEvent::Unpaid(detail)) => if text::has_substring(
            detail@,
            "Insufficient"@,
        ) {
            Some((ZapStageView::Balance, ZapActionView::CheckBalance))
        } else {
            Some(
                zap_ends(
                    "⚠️ Could not pay the Lightning invoice. The mint may be unreachable."@,
                ),
            )
        },
        (ZapStageView::Balance, ZapEvent::Balance(sats)) => Some(
            zap_ends(
                "❌ Not enough sats in wallet. Current balance: "@ + number::decimal(
                    sats as nat,
                ) + " sats"@,
            ),
        ),
        _ => None,
    }
}

/// The view of a step.
pub open spec fn opt_step(r: Option<(ZapStage, ZapAction)>) -> Option<(ZapStageView, ZapActionView)> {
    match r {
        Some(p) => Some((p.0@, p.1@)),
        None => None,
    }
}

fn zap_stop(s: &str) -> (r: Option<(ZapStage, ZapAction)>)
    ensures
        opt_step(r) == Some(zap_ends(s@)),
{
    Some((ZapStage::Stopped, ZapAction::Reply(s.to_owned())))
}

fn find_address(output: &str) -> (r: Option<String>)
    ensures
        text::opt_view(r) == lightning_address(output@),
{
    if let Some(e) = nak::first_event(output) {
        let p = nak::read_profile(&e);
        if let Some(l) = p.str_at("lud16") {
            if !l.is_empty() {
                return Some(l.to_owned());
            }
        }
    }
    None
}

fn take_profile(hex: &str, output: &str) -> (r: Option<(ZapStage, ZapAction)>)
    ensures
        opt_step(r) == Some(profile_printed(hex@, output@)),
{
    match find_address(output) {
        None => zap_stop("⚠️ Recipient doesn't have a Lightning address configured."),
        Some(l) => match nostr_cmds::split_name(l.as_str()) {
            None => zap_stop("⚠️ Recipient has an invalid Lightning address."),
            Some((user, domain)) => {
                let address = text::cat4("https://", domain, "/.well-known/lnurlp/", user);
                Some(
                    (
                        ZapStage::Service { hex: hex.to_owned(), address: address.clone() },
                        ZapAction::Fetch(address),
                    ),
                )
            },
        },
    }
}

fn take_service(hex: &str, address: &str, data: &Json) -> (r: Option<(ZapStage, ZapAction)>)
    ensures
        opt_step(r) == Some(service_told(hex@, address@, data@)),
{
    let allowed: bool = match data.get("allowsNostr") {
        Some(v) => match v.as_bool() {
            Some(b) => b,
            None => false,
        },
        None => false,
    };
    if !allowed {
        return zap_stop("⚠️ Recipient's Lightning service doesn't support Nostr zaps.");
    }
    match data.str_at("callback") {
        None => zap_stop("⚠️ Recipient's Lightning service is misconfigured (no callback URL)."),
        Some(callback) => Some(
            (
                ZapStage::Encode { hex: hex.to_owned(), callback: callback.to_owned() },
                ZapAction::EncodeLnurl(address.to_owned()),
            ),
        ),
    }
}

fn push_tag(tags: &mut Vec<Vec<String>>, a: &str, b: &str)
    ensures
        json::list_views(final(tags)@) == json::list_views(old(tags)@).push(
            Seq::empty().push(a@).push(b@),
        ),
{
    let ghost before = json::list_views(tags@);
    let mut tag: Vec<String> = Vec::new();
    tag.push(a.to_owned());
    tag.push(b.to_owned());
    let ghost strings = text::views(tag@);
    proof {
        assert(strings =~= Seq::empty().push(a@).push(b@));
    }
    tags.push(tag);
    proof {
        assert(json::list_views(tags@) =~= before.push(strings));
    }
}

fn thousandths(z: &Zap) -> (r: String)
    ensures
        r@ == number::decimal(millisats(z@)),
{
    number::show_wide(z.sats as u128 * 1000)
}

fn build_tags(z: &Zap, hex: &str, lnurl: &str) -> (r: Vec<Vec<String>>)
    ensures
        json::list_views(r@) == zap_tags(z@, hex@, lnurl@),
{
    let mut tags: Vec<Vec<String>> = Vec::new();
    let mut relays: Vec<String> = Vec::new();
    relays.push("relays".to_owned());
    relays.push("wss://relay.ditto.pub".to_owned());
    relays.push("wss://relay.primal.net".to_owned());
    let ghost strings = text::views(relays@);
    proof {
        assert(strings =~= Seq::empty().push("relays"@).push("wss://relay.ditto.pub"@).push(
            "wss://relay.primal.net"@,
        ));
    }
    tags.push(relays);
    proof {
        assert(json::list_views(tags@) =~= Seq::empty().push(strings));
    }
    push_tag(&mut tags, "amount", thousandths(z).as_str());
    push_tag(&mut tags, "p", hex);
    if !lnurl.is_empty() {
        push_tag(&mut tags, "lnurl", lnurl);
    }
    tags
}

fn build_request(z: &Zap, hex: &str, lnurl: &str) -> (r: Json)
    ensures
        r@ == zap_event(z@, hex@, lnurl@),
{
    let mut m: Vec<(String, Json)> = Vec::new();
    proof {
        assert(json::member_views(m@) =~= Seq::empty());
    }
    json::add_member(&mut m, "kind", json::integer(9734));
    json::add_member(&mut m, "content", json::string(z.message.as_str()));
    json::add_member(&mut m, "tags", json::text_table(&build_tags(z, hex, lnurl)));
    json::object(m)
}

fn take_invoice(data: &Json) -> (r: Option<(ZapStage, ZapAction)>)
    ensures
        opt_step(r) == Some(invoice_told(data@)),
{
    if let Some(pr) = data.str_at("pr") {
        if !pr.is_empty() {
            return Some((ZapStage::Pay, ZapAction::Pay(pr.to_owned())));
        }
    }
    zap_stop("⚠️ Lightning service didn't return an invoice.")
}

/// Takes a zap one step further.
pub fn zap_next(z: &Zap, stage: &ZapStage, event: ZapEvent) -> (r: Option<(ZapStage, ZapAction)>)
    ensures
        opt_step(r) == zap_step(z@, stage@, event),
{
    match (stage, event) {
        (ZapStage::Key, ZapEvent::Resolved(key)) => match key {
            Some(hex) => Some(
                (
                    ZapStage::Profile { hex: hex.to_owned() },
                    ZapAction::FetchProfile(hex.to_owned()),
                ),
            ),
            None => zap_stop(
                text::cat3("⚠️ Could not resolve npub \"", z.npub.as_str(), "\".").as_str(),
            ),
        },
        (ZapStage::Profile { hex }, ZapEvent::Profile(ran)) => match ran {
            Ran::Output(o) => take_profile(hex.as_str(), o),
            _ => zap_stop("⚠️ Couldn't fetch recipient's Nostr profile. Try again later."),
        },
        (ZapStage::Service { hex, address }, ZapEvent::Fetched(data)) => match data {
            Some(d) => take_service(hex.as_str(), address.as_str(), d),
            None => zap_stop("⚠️ Couldn't reach recipient's Lightning service."),
        },
        (ZapStage::Encode { hex, callback }, ZapEvent::Encoded(form)) => {
            let lnurl = text::own_or(form, "");
            Some(
                (
                    ZapStage::Sign { callback: callback.clone() },
                    ZapAction::Sign(build_request(z, hex.as_str(), lnurl.as_str())),
                ),
            )
        },
        (ZapStage::Sign { callback }, ZapEvent::Signed(signed)) => match signed {
            Some(s) => Some(
                (
                    ZapStage::Invoice,
                    ZapAction::Fetch(
                        text::cat5(
                            callback.as_str(),
                            "?amount=",
                            thousandths(z).as_str(),
                            "&nostr=",
                            url::encode(s).as_str(),
                        ),
                    ),
                ),
            ),
            None => zap_stop("⚠️ Failed to create signed zap request."),
        },
        (ZapStage::Invoice, ZapEvent::Fetched(data)) => match data {
            Some(d) => take_invoice(d),
            None => zap_stop("⚠️ Couldn't get invoice from recipient's Lightning service."),
        },
        (ZapStage::Pay, ZapEvent::Paid) => Some(
            (
                ZapStage::Zapped,
                ZapAction::Reply(
                    text::cat5(
                        "⚡ Zapped ",
                        z.npub.as_str(),
                        " ",
                        number::show(z.sats).as_str(),
                        " sats! (NIP-57 receipt published by recipient's service)",
                    ),
                ),
            ),
        ),
        (ZapStage::Pay, ZapEvent::Unpaid(detail)) => if text::contains(detail, "Insufficient") {
            Some((ZapStage::Balance, ZapAction::CheckBalance))
        } else {
            zap_stop("⚠️ Could not pay the Lightning invoice. The mint may be unreachable.")
        },
        (ZapStage::Balance, ZapEvent::Balance(sats)) => zap_stop(
            text::cat3(
                "❌ Not enough sats in wallet. Current balance: ",
                number::show(sats).as_str(),
                " sats",
            ).as_str(),
        ),
        _ => None,
    }
}

/// Only an invoice that the recipient's service returned is paid, and it is never empty.
pub proof fn law_only_returned_invoice_is_paid(z: ZapView, stage: ZapStageView, event: ZapEvent)
    ensures
        match zap_step(z, stage, event) {
            Some((_, ZapActionView::Pay(pr))) => match event {
                ZapEvent::Fetched(Some(d)) => d@.text_at("pr"@) == Some(pr) && pr.len() > 0 && stage
                    is Invoice,
                _ => false,
            },
            _ => true,
        },
{
}

/// A request is signed only once the service said that it takes zaps, and for the amount of the
/// zap.
pub proof fn law_service_must_allow_zaps(
    z: ZapView,
    hex: Seq<char>,
    address: Seq<char>,
    data: JsonView,
)
    ensures
        service_told(hex, address, data).0 is Encode ==> data.at("allowsNostr"@).boolean() == Some(
            true,
        ),
        zap_tags(z, hex, ""@)[1] == Seq::empty().push("amount"@).push(
            number::decimal((z.sats * 1000) as nat),
        ),
{
    reveal_strlit("");
}

/// A zap counts as done only once the wallet paid.
pub proof fn law_zapped_means_paid(z: ZapView, stage: ZapStageView, event: ZapEvent)
    ensures
        match zap_step(z, stage, event) {
            Some((ZapStageView::Zapped, _)) => stage is Pay && event is Paid,
            _ => true,
        },
{
}

} // verus!
