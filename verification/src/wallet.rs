//! What the wallet decides: its seed, its funds, and payments to Lightning addresses.

use vstd::prelude::*;
use crate::json::{Json, JsonView};
use crate::{keys, number, text};

verus! {

// ---------------------------------------------------------------------------
// The seed
// ---------------------------------------------------------------------------

/// Why a seed file cannot be used.
#[derive(Debug, Clone, Copy, PartialEq, Eq, Structural)]
pub enum SeedError {
    /// It holds neither a seed nor text.
    NotText,
    /// Its text is no mnemonic phrase.
    BadMnemonic,
}

impl SeedError {
    /// What the error says.
    pub fn message(&self) -> (r: &'static str)
        ensures
            r@ == match *self {
                SeedError::NotText => "Seed file is neither 64 bytes nor valid UTF-8"@,
                SeedError::BadMnemonic => "Failed to parse mnemonic from seed file"@,
            },
    {
        match self {
            SeedError::NotText => "Seed file is neither 64 bytes nor valid UTF-8",
            SeedError::BadMnemonic => "Failed to parse mnemonic from seed file",
        }
    }
}

/// The seed in a file: its sixty-four bytes, or what its mnemonic phrase stands for.
pub open spec fn seed_in(data: Seq<u8>) -> Result<Seq<u8>, SeedError> {
    if data.len() == 64 {
        Ok(data)
    } else if !vstd::utf8::valid_utf8(data) {
        Err(SeedError::NotText)
    } else {
        match keys::mnemonic_seed_of(text::trimmed(vstd::utf8::decode_utf8(data))) {
            Some(s) => Ok(s),
            None => Err(SeedError::BadMnemonic),
        }
    }
}

/// Reads the seed in a file.
pub fn read_seed(data: Vec<u8>) -> (r: Result<Vec<u8>, SeedError>)
    ensures
        match (seed_in(data@), r) {
            (Ok(want), Ok(got)) => got@ == want,
            (Err(want), Err(got)) => got == want,
            _ => false,
        },
        match r {
            Ok(seed) => seed@.len() == 64,
            Err(_) => true,
        },
{
    if data.len() == 64 {
        return Ok(data);
    }
    match keys::utf8_text(data) {
        None => Err(SeedError::NotText),
        Some(s) => match keys::mnemonic_seed(text::trim(s.as_str())) {
            Some(seed) => Ok(seed),
            None => Err(SeedError::BadMnemonic),
        },
    }
}

/// A new seed, by chance.
pub fn create_seed() -> (r: Option<Vec<u8>>)
    ensures
        r is Some,
        r->0@.len() == 64,
{
    keys::random_seed()
}

/// The seed in a file, taken as it is; else what is wrong with the file.
pub fn raw_seed(data: Vec<u8>) -> (r: Result<Vec<u8>, String>)
    ensures
        match r {
            Ok(seed) => seed@ == data@ && data@.len() == 64,
            Err(why) => data@.len() != 64 && why@ == "seed file is "@ + number::decimal(
                data@.len(),
            ) + " bytes, expected 64"@,
        },
{
    if data.len() == 64 {
        Ok(data)
    } else {
        Err(
            text::cat3(
                "seed file is ",
                number::show_size(data.len()).as_str(),
                " bytes, expected 64",
            ),
        )
    }
}

/// A seed that was written as it is is read back as it is.
pub proof fn law_written_seed_is_read_back(seed: Seq<u8>)
    requires
        seed.len() == 64,
    ensures
        seed_in(seed) == Ok::<Seq<u8>, SeedError>(seed),
{
}

// ---------------------------------------------------------------------------
// Funds
// ---------------------------------------------------------------------------

/// What is said where funds do not suffice for a tip.
pub open spec fn short_of(balance: u64, amount: u64) -> Seq<char> {
    "Insufficient funds: have "@ + number::decimal(balance as nat) + " sats, need "@
        + number::decimal(amount as nat) + " sats"@
}

/// Checks the funds for a tip.
pub fn check_funds(balance: u64, amount: u64) -> (r: Result<(), String>)
    ensures
        match r {
            Ok(_) => balance >= amount,
            Err(why) => balance < amount && why@ == short_of(balance, amount),
        },
{
    if balance < amount {
        Err(
            text::cat5(
                "Insufficient funds: have ",
                number::show(balance).as_str(),
                " sats, need ",
                number::show(amount).as_str(),
                " sats",
            ),
        )
    } else {
        Ok(())
    }
}

/// Checks the funds for a payout.
pub fn check_balance(balance: u64, amount: u64) -> (r: Result<(), String>)
    ensures
        match r {
            Ok(_) => balance >= amount,
            Err(why) => balance < amount && why@ == "Insufficient balance: have "@
                + number::decimal(balance as nat) + " sats, need "@ + number::decimal(
                amount as nat,
            ) + " sats"@,
        },
{
    if balance < amount {
        Err(
            text::cat5(
                "Insufficient balance: have ",
                number::show(balance).as_str(),
                " sats, need ",
                number::show(amount).as_str(),
                " sats",
            ),
        )
    } else {
        Ok(())
    }
}

// ---------------------------------------------------------------------------
// Payouts to a Lightning address
// ---------------------------------------------------------------------------

/// Where a Lightning address of the form `user@domain` is paid.
pub open spec fn endpoint_of(address: Seq<char>) -> Option<Seq<char>> {
    let parts = text::pieces(address, '@');
    if parts.len() == 2 {
        Some("https://"@ + parts[1] + "/.well-known/lnurlp/"@ + parts[0])
    } else {
        None
    }
}

/// Where a Lightning address is paid.
pub fn payment_endpoint(address: &str) -> (r: Result<String, String>)
    ensures
        match r {
            Ok(url) => endpoint_of(address@) == Some(url@),
            Err(why) => endpoint_of(address@) is None && why@ == "invalid LN address: "@
                + address@,
        },
{
    let parts = text::split_char(address, '@');
    let ghost all = text::views(parts@);
    proof {
        assert(all.len() == parts.len());
    }
    if parts.len() != 2 {
        return Err(text::cat2("invalid LN address: ", address));
    }
    proof {
        assert(all[0] == parts@[0]@);
        assert(all[1] == parts@[1]@);
    }
    Ok(
        text::cat4(
            "https://",
            parts[1].as_str(),
            "/.well-known/lnurlp/",
            parts[0].as_str(),
        ),
    )
}

/// The least that an endpoint takes, in thousandths of a sat.
pub open spec fn least(offer: JsonView) -> nat {
    match offer.at("minSendable"@).unsigned() {
        Some(n) => n,
        None => 1000,
    }
}

/// The most that an endpoint takes, in thousandths of a sat.
pub open spec fn most(offer: JsonView) -> nat {
    match offer.at("maxSendable"@).unsigned() {
        Some(n) => n,
        None => 1_000_000_000,
    }
}

/// Where the invoice for an amount is fetched, given what the endpoint offers; else why not.
pub open spec fn invoice_request(offer: JsonView, sats: u64) -> Result<Seq<char>, Seq<char>> {
    let amount = (sats * 1000) as nat;
    match offer.text_at("callback"@) {
        None => Err("no callback in LNURL response"@),
        Some(callback) => if amount < least(offer) || amount > most(offer) {
            Err(
                "Amount "@ + number::decimal(amount) + " msat outside ["@ + number::decimal(
                    least(offer),
                ) + ", "@ + number::decimal(most(offer)) + "]"@,
            )
        } else {
            Ok(
                callback + (if callback.contains('?') {
                    "&"@
                } else {
                    "?"@
                }) + "amount="@ + number::decimal(amount),
            )
        },
    }
}

fn number_at(offer: &Json, key: &str, default: u64) -> (r: u64)
    ensures
        r == match offer@.at(key@).unsigned() {
            Some(n) => n,
            None => default as nat,
        },
{
    match offer.get(key) {
        Some(v) => match v.as_u64() {
            Some(n) => n,
            None => default,
        },
        None => default,
    }
}

/// Where the invoice for an amount is fetched.
pub fn invoice_url(offer: &Json, sats: u64) -> (r: Result<String, String>)
    ensures
        match (invoice_request(offer@, sats), r) {
            (Ok(want), Ok(got)) => got@ == want,
            (Err(want), Err(got)) => got@ == want,
            _ => false,
        },
{
    let callback = match offer.str_at("callback") {
        Some(c) => c,
        None => {
            return Err("no callback in LNURL response".to_owned());
        },
    };
    let low: u64 = number_at(offer, "minSendable", 1000);
    let high: u64 = number_at(offer, "maxSendable", 1_000_000_000);
    let amount: u128 = sats as u128 * 1000;
    if amount < low as u128 || amount > high as u128 {
        return Err(
            text::cat7(
                "Amount ",
                number::show_wide(amount).as_str(),
                " msat outside [",
                number::show(low).as_str(),
                ", ",
                number::show(high).as_str(),
                "]",
            ),
        );
    }
    let sep = if text::contains_char(callback, '?') {
        "&"
    } else {
        "?"
    };
    Ok(text::cat4(callback, sep, "amount=", number::show_wide(amount).as_str()))
}

/// The invoice in an answer.
pub fn invoice_in(body: &Json) -> (r: Result<String, String>)
    ensures
        match r {
            Ok(pr) => body@.text_at("pr"@) == Some(pr@),
            Err(why) => body@.text_at("pr"@) is None && why@
                == "no 'pr' field in invoice response"@,
        },
{
    match body.str_at("pr") {
        Some(pr) => Ok(pr.to_owned()),
        None => Err("no 'pr' field in invoice response".to_owned()),
    }
}

/// An invoice is only asked for within the limits that the endpoint sets.
pub proof fn law_payout_within_limits(offer: JsonView, sats: u64)
    requires
        invoice_request(offer, sats) is Ok,
    ensures
        least(offer) <= sats * 1000 <= most(offer),
{
}

} // verus!
