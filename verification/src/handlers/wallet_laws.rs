//! What holds of tips, deposits, withdrawals and zaps as a whole.

use vstd::prelude::*;
use crate::community::CommunityView;
use crate::handlers::nostr_cmds;
use crate::handlers::wallet_cmds;
use crate::handlers::wallet_cmds::{ZapActionView, ZapEvent, ZapStageView, ZapView};
use crate::json::{Json, JsonView};
use crate::{community, handlers, number, text, url, wallet};

verus! {

// ---------------------------------------------------------------------------
// Rewards
// ---------------------------------------------------------------------------

/// A tip earns its sender five points and counts toward what they tipped; nobody else gains.
pub proof fn law_tip_is_rewarded(
    db: CommunityView,
    sender: Seq<char>,
    sats: i64,
    chat: Seq<char>,
    now: i64,
    other: Seq<char>,
)
    requires
        community::fits(db.user(sender, now).xp + 5),
        community::fits(db.user(sender, now).sats_tipped + sats),
        other != sender,
    ensures
        ({
            let before = db.user(sender, now);
            let after = wallet_cmds::tip_rewarded(db, Some(sender), sats, chat, now);
            &&& after.users[sender].xp == before.xp + 5
            &&& after.users[sender].sats_tipped == before.sats_tipped + sats
            &&& after.users[sender].sats_zapped == before.sats_zapped
            &&& after.user(other, now) == db.user(other, now)
        }),
        wallet_cmds::tip_rewarded(db, None, sats, chat, now) == db,
{
}

/// A zap earns its sender five points and its recipient ten, and counts toward what the sender
/// zapped; nobody else gains.
pub proof fn law_zap_is_rewarded(
    db: CommunityView,
    sender: Seq<char>,
    recipient: Seq<char>,
    sats: i64,
    chat: Seq<char>,
    now: i64,
    other: Seq<char>,
)
    requires
        sender != recipient,
        community::fits(db.user(sender, now).xp + 5),
        community::fits(db.user(recipient, now).xp + 10),
        community::fits(db.user(sender, now).sats_zapped + sats),
        other != sender,
        other != recipient,
    ensures
        ({
            let after = wallet_cmds::zap_rewarded(db, Some(sender), recipient, sats, chat, now);
            &&& after.users[sender].xp == db.user(sender, now).xp + 5
            &&& after.users[sender].sats_zapped == db.user(sender, now).sats_zapped + sats
            &&& after.users[sender].sats_tipped == db.user(sender, now).sats_tipped
            &&& after.users[recipient].xp == db.user(recipient, now).xp + 10
            &&& after.users[recipient].sats_zapped == db.user(recipient, now).sats_zapped
            &&& after.user(other, now) == db.user(other, now)
        }),
        wallet_cmds::zap_rewarded(db, None, recipient, sats, chat, now).users[recipient].xp
            == db.user(recipient, now).xp + 10,
{
}

// ---------------------------------------------------------------------------
// Amounts
// ---------------------------------------------------------------------------

/// An amount is what its digits say, and never nothing.
pub proof fn law_amounts_are_read(n: nat)
    requires
        n <= u64::MAX,
    ensures
        n > 0 ==> wallet_cmds::amount_of(number::decimal(n)) == Some(n as u64),
        wallet_cmds::amount_of(number::decimal(0)) is None,
{
    number::law_decimal_round_trip(n, u64::MAX as nat);
    number::law_decimal_round_trip(0, u64::MAX as nat);
}

proof fn lemma_plain_number(n: nat)
    ensures
        text::unspaced(number::decimal(n)),
        number::decimal(n).len() > 0,
        text::trimmed(number::decimal(n)) == number::decimal(n),
{
    let d = number::decimal(n);
    number::lemma_decimal_digits(n);
    assert forall|i: int| 0 <= i < d.len() implies !text::char_is_whitespace(#[trigger] d[i]) by {
        assert(number::is_digit(d[i]));
    }
    let none = Seq::<char>::empty();
    assert(none + d + none =~= d);
    assert(d[d.len() - 1] == d.last());
    text::lemma_trim_around(none, d, none);
}

/// A tip is of the amount that stands first, with what follows it as the memo; it is refused without
/// a wallet.
pub proof fn law_tip_is_read(n: nat, memo: Seq<char>)
    requires
        0 < n <= u64::MAX,
        memo.len() > 0,
        text::trimmed(memo) == memo,
    ensures
        wallet_cmds::tip_refusal(true, number::decimal(n)) is None,
        wallet_cmds::tip_refusal(true, number::decimal(n).push(' ') + memo) is None,
        wallet_cmds::tip_refusal(false, number::decimal(n)) is Some,
        wallet_cmds::amount_of(
            text::head_word(text::trimmed(number::decimal(n).push(' ') + memo)),
        ) == Some(n as u64),
        wallet_cmds::amount_of(text::head_word(text::trimmed(number::decimal(n)))) == Some(
            n as u64,
        ),
        wallet_cmds::memo_of(number::decimal(n).push(' ') + memo) == Some(memo),
        wallet_cmds::memo_of(number::decimal(n)) is None,
{
    let d = number::decimal(n);
    let all = d.push(' ') + memo;
    lemma_plain_number(n);
    law_amounts_are_read(n);
    text::law_first_word_is_cut(d, ' ', memo);
    text::law_trimmed_has_bare_ends(memo);
    let none = Seq::<char>::empty();
    assert(none + all + none =~= all);
    assert(all[0] == d[0] && all.last() == memo.last());
    text::lemma_trim_around(none, all, none);
}

/// A deposit is of a thousand sats where no amount is given, and of the amount that is given from a
/// hundred on; it is refused without a wallet.
pub proof fn law_deposit_is_read(n: nat, blank: Seq<char>)
    requires
        0 < n <= u64::MAX,
        text::trimmed(blank).len() == 0,
    ensures
        wallet_cmds::deposit_amount(blank) == Some(1000u64),
        wallet_cmds::deposit_amount(number::decimal(n)) == Some(n as u64),
        wallet_cmds::deposit_refusal(true, number::decimal(n)) is None <==> n >= 100,
        wallet_cmds::deposit_refusal(true, blank) is None,
        wallet_cmds::deposit_refusal(false, number::decimal(n)) is Some,
{
    lemma_plain_number(n);
    law_amounts_are_read(n);
}

/// What is withdrawn to is a Lightning invoice, which begins with `lnbc`.
pub proof fn law_withdrawal_needs_an_invoice(args: Seq<char>)
    ensures
        wallet_cmds::withdraw_refusal(true, args) is None <==> text::trimmed(args).len() > 0
            && text::trimmed(args).len() >= 4 && text::trimmed(args).subrange(0, 4) == "lnbc"@,
        wallet_cmds::withdraw_refusal(false, args) is Some,
{
    reveal_strlit("lnbc");
}

// ---------------------------------------------------------------------------
// Zaps
// ---------------------------------------------------------------------------

/// A zap is to the user named first, of the amount named second, with what follows as its message.
#[verifier::rlimit(30)]
pub proof fn law_zap_is_read(npub: Seq<char>, n: nat, message: Seq<char>)
    requires
        text::unspaced(npub),
        "npub1"@.is_prefix_of(npub),
        0 < n <= u64::MAX,
        message.len() > 0,
        text::trimmed(message) == message,
    ensures
        ({
            let args = npub.push(' ') + (number::decimal(n).push(' ') + message);
            let short = npub.push(' ') + number::decimal(n);
            &&& wallet_cmds::zap_request(args, true, true) == Ok::<ZapView, Seq<char>>(
                ZapView { npub, sats: n as u64, message },
            )
            &&& wallet_cmds::zap_request(short, true, true) == Ok::<ZapView, Seq<char>>(
                ZapView { npub, sats: n as u64, message: Seq::empty() },
            )
            &&& wallet_cmds::zap_request(args, false, true) is Err
            &&& wallet_cmds::zap_request(args, true, false) is Err
        }),
{
    reveal_strlit("npub1");
    reveal_strlit("nostr:");
    reveal_strlit("");
    let d = number::decimal(n);
    let rest = d.push(' ') + message;
    let args = npub.push(' ') + rest;
    let short = npub.push(' ') + d;
    let none = Seq::<char>::empty();
    lemma_plain_number(n);
    law_amounts_are_read(n);
    text::law_trimmed_has_bare_ends(message);
    text::law_first_word_is_cut(npub, ' ', rest);
    text::law_first_word_is_cut(npub, ' ', d);
    text::law_first_word_is_cut(d, ' ', message);
    assert(npub.subrange(0, 5)[0] == 'n' && npub.subrange(0, 5)[1] == 'p');
    assert(npub[0] == 'n' && npub[1] == 'p');
    assert(npub.last() == npub[npub.len() - 1]);
    assert(none + args + none =~= args);
    assert(args[0] == npub[0] && args.last() == message.last());
    text::lemma_trim_around(none, args, none);
    assert(none + short + none =~= short);
    assert(short[0] == npub[0] && short.last() == d.last());
    assert(d.last() == d[d.len() - 1]);
    text::lemma_trim_around(none, short, none);
    assert(none + npub + none =~= npub);
    text::lemma_trim_around(none, npub, none);
    if "nostr:"@.is_prefix_of(npub) {
        assert(npub.subrange(0, 6)[1] == 'o');
    }
    assert(handlers::plain_npub(npub) == npub);
    assert(""@ =~= none);
}

/// A zap goes through in this order: the key that the recipient's npub stands for, the profile of
/// that key, the payment service that the profile names, a request of the recipient's service signed
/// for that key and for a thousand times the sats, an invoice for the same amount, and its payment.
pub proof fn law_zap_goes_through(
    z: ZapView,
    key: &str,
    output: &str,
    user: Seq<char>,
    domain: Seq<char>,
    offer: &Json,
    callback: Seq<char>,
    signed: &str,
    told: &Json,
    invoice: Seq<char>,
)
    requires
        wallet_cmds::lightning_address(output@) == Some(user.push('@') + domain),
        user.len() > 0,
        !user.contains('@'),
        domain.len() > 0,
        offer@.at("allowsNostr"@) == JsonView::Bool(true),
        offer@.at("callback"@) == JsonView::Text(callback),
        told@.at("pr"@) == JsonView::Text(invoice),
        invoice.len() > 0,
    ensures
        ({
            let hex = key@;
            let service = "https://"@ + domain + "/.well-known/lnurlp/"@ + user;
            let amount = number::decimal((1000 * z.sats) as nat);
            let profile = ZapStageView::Profile { hex };
            let asked = ZapStageView::Service { hex, address: service };
            let encode = ZapStageView::Encode { hex, callback };
            let sign = ZapStageView::Sign { callback };
            &&& wallet_cmds::zap_step(z, ZapStageView::Key, ZapEvent::Resolved(Some(key))) == Some(
                (profile, ZapActionView::FetchProfile(hex)),
            )
            &&& wallet_cmds::zap_step(z, profile, ZapEvent::Profile(nostr_cmds::Ran::Output(output)))
                == Some((asked, ZapActionView::Fetch(service)))
            &&& wallet_cmds::zap_step(z, asked, ZapEvent::Fetched(Some(offer))) == Some(
                (encode, ZapActionView::EncodeLnurl(service)),
            )
            &&& wallet_cmds::zap_step(z, sign, ZapEvent::Signed(Some(signed))) == Some(
                (
                    ZapStageView::Invoice,
                    ZapActionView::Fetch(
                        callback + "?amount="@ + amount + "&nostr="@ + url::percent_encoded(
                            signed@,
                        ),
                    ),
                ),
            )
            &&& wallet_cmds::zap_step(z, ZapStageView::Invoice, ZapEvent::Fetched(Some(told)))
                == Some((ZapStageView::Pay, ZapActionView::Pay(invoice)))
            &&& wallet_cmds::zap_step(z, ZapStageView::Pay, ZapEvent::Paid) is Some
            &&& (wallet_cmds::zap_step(z, ZapStageView::Pay, ZapEvent::Paid)->0).0
                == ZapStageView::Zapped
        }),
{
    let address = user.push('@') + domain;
    assert forall|j: int| 0 <= j < user.len() implies address[j] != '@' by {
        assert(address[j] == user[j]);
    }
    text::lemma_first_of(address, '@', user.len() as int);
    assert(address.take(user.len() as int) =~= user);
    assert(address.skip(user.len() as int + 1) =~= domain);
    assert(nostr_cmds::name_parts(address) == Some((user, domain)));
}

/// The request that is signed for a zap is of the kind for zaps, carries the message, and names the
/// recipient's key and the amount in thousandths of a sat.
pub proof fn law_zap_request_names_key_and_amount(z: ZapView, hex: Seq<char>, form: Option<&str>)
    ensures
        ({
            let step = wallet_cmds::zap_step(
                z,
                ZapStageView::Encode { hex, callback: Seq::empty() },
                ZapEvent::Encoded(form),
            );
            let tags = wallet_cmds::zap_tags(
                z,
                hex,
                text::or_else(text::opt_str_view(form), ""@),
            );
            &&& step is Some && (step->0).1 is Sign
            &&& (step->0).1->Sign_0 is Object
            &&& (step->0).1->Sign_0->Object_0.contains(("content"@, JsonView::Text(z.message)))
            &&& (step->0).1->Sign_0->Object_0.contains(
                ("kind"@, JsonView::Number(number::decimal(9734))),
            )
            &&& (step->0).1->Sign_0->Object_0.contains(("tags"@, crate::json::table_array(tags)))
            &&& tags.contains(Seq::empty().push("p"@).push(hex))
            &&& tags.contains(
                Seq::empty().push("amount"@).push(number::decimal((1000 * z.sats) as nat)),
            )
            &&& forall|s: &str| form == Some(s) && s@.len() > 0 ==> #[trigger] tags.contains(
                Seq::empty().push("lnurl"@).push(s@),
            )
        }),
{
    let lnurl = text::or_else(text::opt_str_view(form), ""@);
    let event = wallet_cmds::zap_event(z, hex, lnurl);
    let fields = event->Object_0;
    let tags = wallet_cmds::zap_tags(z, hex, lnurl);
    assert(fields[0] == ("kind"@, JsonView::Number(number::decimal(9734))));
    assert(fields[1] == ("content"@, JsonView::Text(z.message)));
    assert(fields[2] == ("tags"@, crate::json::table_array(tags)));
    assert(tags[1] == Seq::empty().push("amount"@).push(number::decimal((z.sats * 1000) as nat)));
    assert(tags[2] == Seq::empty().push("p"@).push(hex));
    if lnurl.len() > 0 {
        assert(tags[3] == Seq::empty().push("lnurl"@).push(lnurl));
    }
}

/// Whatever fails on the way stops a zap before anything is paid, and the sender is told; only lack
/// of funds has the balance looked up first.
pub proof fn law_failures_stop_a_zap(
    z: ZapView,
    hex: Seq<char>,
    address: Seq<char>,
    callback: Seq<char>,
    why: &str,
    data: &Json,
    left: u64,
)
    ensures
        stops(wallet_cmds::zap_step(z, ZapStageView::Key, ZapEvent::Resolved(None))),
        stops(
            wallet_cmds::zap_step(
                z,
                ZapStageView::Profile { hex },
                ZapEvent::Profile(nostr_cmds::Ran::Failed),
            ),
        ),
        stops(
            wallet_cmds::zap_step(
                z,
                ZapStageView::Profile { hex },
                ZapEvent::Profile(nostr_cmds::Ran::TimedOut),
            ),
        ),
        stops(
            wallet_cmds::zap_step(
                z,
                ZapStageView::Service { hex, address },
                ZapEvent::Fetched(None),
            ),
        ),
        data@.at("allowsNostr"@) != JsonView::Bool(true) ==> stops(
            wallet_cmds::zap_step(
                z,
                ZapStageView::Service { hex, address },
                ZapEvent::Fetched(Some(data)),
            ),
        ),
        stops(
            wallet_cmds::zap_step(z, ZapStageView::Sign { callback }, ZapEvent::Signed(None)),
        ),
        stops(wallet_cmds::zap_step(z, ZapStageView::Invoice, ZapEvent::Fetched(None))),
        !(data@.at("pr"@) is Text) ==> stops(
            wallet_cmds::zap_step(z, ZapStageView::Invoice, ZapEvent::Fetched(Some(data))),
        ),
        !text::has_substring(why@, "Insufficient"@) ==> stops(
            wallet_cmds::zap_step(z, ZapStageView::Pay, ZapEvent::Unpaid(why)),
        ),
        text::has_substring(why@, "Insufficient"@) ==> wallet_cmds::zap_step(
            z,
            ZapStageView::Pay,
            ZapEvent::Unpaid(why),
        ) == Some((ZapStageView::Balance, ZapActionView::CheckBalance)),
        stops(wallet_cmds::zap_step(z, ZapStageView::Balance, ZapEvent::Balance(left))),
{
}

/// Whether a step ends a zap that did not go through, with something to say.
pub open spec fn stops(step: Option<(ZapStageView, ZapActionView)>) -> bool {
    step is Some && (step->0).0 is Stopped && (step->0).1 is Reply
}

// ---------------------------------------------------------------------------
// Services
// ---------------------------------------------------------------------------

/// The host of a mint is what stands between its scheme and its path.
pub proof fn law_mint_is_shown_by_host(scheme: Seq<char>, host: Seq<char>, path: Seq<char>)
    requires
        !scheme.contains('/'),
        !host.contains('/'),
        path.len() == 0 || path[0] == '/',
    ensures
        wallet_cmds::mint_host(scheme + "//"@ + host + path) == host,
{
    reveal_strlit("//");
    let rest = host + path;
    let all = scheme + "//"@ + host + path;
    assert(all =~= scheme + ("//"@ + rest));
    lemma_after_slashes(scheme, rest);
    assert forall|j: int| 0 <= j < host.len() implies rest[j] != '/' by {
        assert(rest[j] == host[j]);
    }
    text::lemma_first_of(rest, '/', host.len() as int);
    assert(rest.take(host.len() as int) =~= host);
}

proof fn lemma_after_slashes(scheme: Seq<char>, rest: Seq<char>)
    requires
        !scheme.contains('/'),
    ensures
        wallet_cmds::after_slashes(scheme + ("//"@ + rest)) == Some(rest),
    decreases scheme.len(),
{
    reveal_strlit("//");
    let all = scheme + ("//"@ + rest);
    if scheme.len() == 0 {
        assert(all[0] == '/' && all[1] == '/');
        assert(all.skip(2) =~= rest);
    } else {
        let tail = scheme.drop_first();
        assert(all[0] == scheme[0]);
        assert(scheme.contains(scheme[0]));
        assert(all.drop_first() =~= tail + ("//"@ + rest));
        if tail.contains('/') {
            let k = choose|k: int| 0 <= k < tail.len() && tail[k] == '/';
            assert(scheme[k + 1] == '/');
        }
        lemma_after_slashes(tail, rest);
    }
}

/// A Lightning address stands for an endpoint of its domain, named after its user; what has not
/// exactly one `@` is none.
pub proof fn law_lightning_address_is_an_endpoint(user: Seq<char>, domain: Seq<char>)
    requires
        !user.contains('@'),
        !domain.contains('@'),
    ensures
        wallet::endpoint_of(user.push('@') + domain) == Some(
            "https://"@ + domain + "/.well-known/lnurlp/"@ + user,
        ),
        wallet::endpoint_of(user) is None,
{
    text::lemma_one_piece(user, '@');
    text::lemma_last_piece(user, domain, '@');
    assert(text::pieces(user.push('@') + domain, '@') =~= seq![user, domain]);
}

/// An invoice is asked for at the endpoint's callback, for a thousand times the sats, exactly where
/// that lies within the limits that the endpoint tells.
pub proof fn law_invoice_is_asked_for(
    offer: JsonView,
    sats: u64,
    callback: Seq<char>,
    low: nat,
    high: nat,
)
    requires
        offer.at("callback"@) == JsonView::Text(callback),
        offer.at("minSendable"@) == JsonView::Number(number::decimal(low)),
        offer.at("maxSendable"@) == JsonView::Number(number::decimal(high)),
        low <= u64::MAX,
        high <= u64::MAX,
    ensures
        ({
            let amount = number::decimal((1000 * sats) as nat);
            let asked = wallet::invoice_request(offer, sats);
            &&& asked is Ok <==> low <= 1000 * sats <= high
            &&& asked is Ok && !callback.contains('?') ==> asked->Ok_0 == callback + "?"@
                + "amount="@ + amount
            &&& asked is Ok && callback.contains('?') ==> asked->Ok_0 == callback + "&"@
                + "amount="@ + amount
        }),
{
    number::lemma_decimal_digits(low);
    number::lemma_decimal_digits(high);
}

} // verus!
