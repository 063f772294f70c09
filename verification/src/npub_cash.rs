//! Claiming of zaps that npub.cash holds for the bot.

use vstd::prelude::*;
use crate::json::{Json, JsonView};
use crate::{json, number, text};

verus! {

/// What was claimed.
pub struct ClaimResult {
    /// Tokens for the wallet.
    pub tokens: Vec<String>,
    /// What they are worth, as far as the service tells: the wallet tells when it receives them.
    pub total_sats: u64,
}

/// Where tokens are claimed.
pub fn claim_url(base_url: &str) -> (r: String)
    ensures
        r@ == text::trimmed_end_char(base_url@, '/') + "/api/v1/claim"@,
{
    text::cat2(text::trim_end_char(base_url, '/'), "/api/v1/claim")
}

/// Where the balance is asked for.
pub fn balance_url(base_url: &str) -> (r: String)
    ensures
        r@ == text::trimmed_end_char(base_url@, '/') + "/api/v1/balance"@,
{
    text::cat2(text::trim_end_char(base_url, '/'), "/api/v1/balance")
}

/// The strings of a list.
pub open spec fn strings_in(list: Seq<JsonView>) -> Seq<Seq<char>>
    decreases list.len(),
{
    if list.len() == 0 {
        Seq::empty()
    } else {
        match list.last().text() {
            Some(s) => strings_in(list.drop_last()).push(s),
            None => strings_in(list.drop_last()),
        }
    }
}

/// The tokens in an answer: one, or a list.
pub open spec fn tokens_in(body: JsonView) -> Seq<Seq<char>> {
    match body.text_at("data"@) {
        Some(s) => seq![s],
        None => match body.at("data"@).items() {
            Some(list) => strings_in(list),
            None => Seq::empty(),
        },
    }
}

/// What a claim was answered: tokens, none where there is nothing to claim, or an error.
pub open spec fn claimed(body: JsonView) -> Result<Seq<Seq<char>>, Seq<char>> {
    if body.at("error"@).boolean() == Some(true) {
        let why = text::or_else(body.text_at("message"@), "unknown error"@);
        if text::has_substring(why, "No proofs"@) || text::has_substring(why, "nothing"@) {
            Ok(Seq::empty())
        } else {
            Err("npub.cash claim error: "@ + why)
        }
    } else {
        Ok(tokens_in(body))
    }
}

fn collect_strings(list: &Vec<Json>) -> (r: Vec<String>)
    ensures
        text::views(r@) == strings_in(json::json_views(list@)),
{
    let ghost all = json::json_views(list@);
    let mut out: Vec<String> = Vec::new();
    let mut i: usize = 0;
    proof {
        assert(all.take(0) =~= Seq::empty());
        assert(text::views(out@) =~= Seq::empty());
    }
    while i < list.len()
        invariant
            i <= list.len(),
            all == json::json_views(list@),
            text::views(out@) == strings_in(all.take(i as int)),
        decreases list.len() - i,
    {
        let ghost before = text::views(out@);
        proof {
            assert(all.take(i + 1).drop_last() =~= all.take(i as int));
            assert(all.take(i + 1).last() == list@[i as int]@);
        }
        if let Some(s) = list[i].as_str() {
            out.push(s.to_owned());
            proof {
                assert(text::views(out@) =~= before.push(s@));
            }
        }
        i = i + 1;
    }
    proof {
        assert(all.take(i as int) =~= all);
    }
    out
}

fn collect_tokens(body: &Json) -> (r: Vec<String>)
    ensures
        text::views(r@) == tokens_in(body@),
{
    let mut one: Vec<String> = Vec::new();
    if let Some(value) = body.get("data") {
        if let Some(s) = value.as_str() {
            one.push(s.to_owned());
            proof {
                assert(text::views(one@) =~= seq![s@]);
            }
            return one;
        }
        if let Some(list) = value.as_array() {
            return collect_strings(list);
        }
    }
    proof {
        assert(text::views(one@) =~= Seq::empty());
    }
    one
}

/// Reads the answer to a claim.
pub fn claim(body: &Json) -> (r: Result<ClaimResult, String>)
    ensures
        match (claimed(body@), r) {
            (Ok(want), Ok(got)) => text::views(got.tokens@) == want && got.total_sats == 0,
            (Err(want), Err(got)) => got@ == want,
            _ => false,
        },
{
    let failed: bool = match body.get("error") {
        Some(v) => match v.as_bool() {
            Some(b) => b,
            None => false,
        },
        None => false,
    };
    if failed {
        let why = text::own_or(body.str_at("message"), "unknown error");
        if text::contains(why.as_str(), "No proofs") || text::contains(why.as_str(), "nothing") {
            let none: Vec<String> = Vec::new();
            proof {
                assert(text::views(none@) =~= Seq::empty());
            }
            return Ok(ClaimResult { tokens: none, total_sats: 0 });
        }
        return Err(text::cat2("npub.cash claim error: ", why.as_str()));
    }
    Ok(ClaimResult { tokens: collect_tokens(body), total_sats: 0 })
}

/// The balance in an answer, or nothing where it has none.
pub fn balance(body: &Json) -> (r: u64)
    ensures
        r == match body@.at("data"@).unsigned() {
            Some(n) => n as u64,
            None => 0,
        },
{
    match body.get("data") {
        Some(v) => match v.as_u64() {
            Some(n) => n,
            None => 0,
        },
        None => 0,
    }
}

/// What is announced once zaps were received.
pub fn claim_announcement(sats: u64) -> (r: String)
    ensures
        r@ == "⚡ Received "@ + number::decimal(sats as nat) + " sats via npub.cash zap!"@,
{
    text::cat3("⚡ Received ", number::show(sats).as_str(), " sats via npub.cash zap!")
}

/// An answer without tokens to claim is no error.
pub proof fn law_nothing_to_claim_is_no_error(body: JsonView)
    requires
        body.text_at("message"@) == Some("No proofs to claim"@),
    ensures
        claimed(body) is Ok,
{
    reveal_strlit("No proofs to claim");
    reveal_strlit("No proofs");
    let m = "No proofs to claim"@;
    assert(m.subrange(0, 9) =~= "No proofs"@);
    assert(text::occurs_at(m, "No proofs"@, 0));
}

/// An answer that is no error yields the token that its data is, or every token of a list in
/// order; what is no text in a list is left out, and data of any other kind holds none.
pub proof fn law_every_token_is_claimed(
    body: JsonView,
    token: Seq<char>,
    list: Seq<JsonView>,
    tokens: Seq<Seq<char>>,
)
    requires
        body.at("error"@) != JsonView::Bool(true),
    ensures
        body.at("data"@) == JsonView::Text(token) ==> claimed(body)
            == Ok::<Seq<Seq<char>>, Seq<char>>(seq![token]),
        body.at("data"@) == JsonView::Array(
            tokens.map_values(|t: Seq<char>| JsonView::Text(t)),
        ) ==> claimed(body) == Ok::<Seq<Seq<char>>, Seq<char>>(tokens),
        body.at("data"@) == JsonView::Array(list) ==> claimed(body) is Ok && forall|t: Seq<char>|
            #[trigger] claimed(body)->Ok_0.contains(t) <==> list.contains(JsonView::Text(t)),
        !(body.at("data"@) is Text) && !(body.at("data"@) is Array) ==> claimed(body)
            == Ok::<Seq<Seq<char>>, Seq<char>>(Seq::empty()),
{
    lemma_strings_of_texts(tokens);
    assert forall|t: Seq<char>| #[trigger] strings_in(list).contains(t) <==> list.contains(
        JsonView::Text(t),
    ) by {
        lemma_strings_in_list(list, t);
    }
}

proof fn lemma_strings_of_texts(tokens: Seq<Seq<char>>)
    ensures
        strings_in(tokens.map_values(|t: Seq<char>| JsonView::Text(t))) == tokens,
    decreases tokens.len(),
{
    let all = tokens.map_values(|t: Seq<char>| JsonView::Text(t));
    if tokens.len() > 0 {
        lemma_strings_of_texts(tokens.drop_last());
        assert(all.drop_last() =~= tokens.drop_last().map_values(
            |t: Seq<char>| JsonView::Text(t),
        ));
        assert(all.last() == JsonView::Text(tokens.last()));
        assert(tokens =~= tokens.drop_last().push(tokens.last()));
    } else {
        assert(tokens =~= Seq::empty());
    }
}

proof fn lemma_strings_in_list(list: Seq<JsonView>, t: Seq<char>)
    ensures
        strings_in(list).contains(t) <==> list.contains(JsonView::Text(t)),
    decreases list.len(),
{
    if list.len() > 0 {
        let init = list.drop_last();
        let before = strings_in(init);
        lemma_strings_in_list(init, t);
        assert(list[list.len() - 1] == list.last());
        if init.contains(JsonView::Text(t)) {
            let k = choose|k: int| 0 <= k < init.len() && init[k] == JsonView::Text(t);
            assert(list[k] == JsonView::Text(t));
        }
        if list.contains(JsonView::Text(t)) && list.last() != JsonView::Text(t) {
            let k = choose|k: int| 0 <= k < list.len() && list[k] == JsonView::Text(t);
            assert(init[k] == JsonView::Text(t));
        }
        if before.contains(t) {
            let k = choose|k: int| 0 <= k < before.len() && before[k] == t;
            assert(strings_in(list)[k] == t);
        }
        if strings_in(list).contains(t) && list.last() != JsonView::Text(t) {
            let k = choose|k: int| 0 <= k < strings_in(list).len() && strings_in(list)[k] == t;
            assert(before[k] == t);
        }
        if list.last() == JsonView::Text(t) {
            assert(strings_in(list)[before.len() as int] == t);
        }
    }
}

/// An error other than that there is nothing to claim is told in the words of the service, and no
/// token is taken from such an answer.
pub proof fn law_claim_error_is_told(body: JsonView, why: Seq<char>)
    requires
        body.at("error"@) == JsonView::Bool(true),
        body.at("message"@) == JsonView::Text(why),
    ensures
        match claimed(body) {
            Ok(tokens) => tokens.len() == 0 && (text::has_substring(why, "No proofs"@)
                || text::has_substring(why, "nothing"@)),
            Err(told) => why.is_suffix_of(told) && !text::has_substring(why, "No proofs"@)
                && !text::has_substring(why, "nothing"@),
        },
{
    let told = "npub.cash claim error: "@ + why;
    assert(told.subrange(told.len() - why.len(), told.len() as int) =~= why);
}

} // verus!
