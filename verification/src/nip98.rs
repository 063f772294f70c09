//! Authentication of HTTP requests by signed Nostr events.

use vstd::prelude::*;
use crate::{keys, text};

verus! {

/// The kind of the events that requests are signed with.
pub const AUTH_KIND: u16 = 27235;

/// The tags of the event for a request: its address, its method, and the digest of its body where
/// it has one.
pub open spec fn request_tags(url: Seq<char>, method: Seq<char>, body: Option<Seq<u8>>) -> Seq<
    (Seq<char>, Seq<char>),
> {
    let tags = Seq::empty().push(("u"@, url)).push(("method"@, method));
    match body {
        Some(b) => tags.push(("payload"@, keys::hex_text(keys::sha256_of(b)))),
        None => tags,
    }
}

/// The views of tags.
pub open spec fn tag_views(v: Seq<(String, String)>) -> Seq<(Seq<char>, Seq<char>)> {
    v.map_values(|t: (String, String)| (t.0@, t.1@))
}

fn push_tag(tags: &mut Vec<(String, String)>, name: &str, value: &str)
    ensures
        tag_views(final(tags)@) == tag_views(old(tags)@).push((name@, value@)),
{
    let ghost before = tag_views(tags@);
    tags.push((name.to_owned(), value.to_owned()));
    proof {
        assert(tag_views(tags@) =~= before.push((name@, value@)));
    }
}

/// The tags of the event for a request.
pub fn auth_tags(url: &str, method: &str, payload: Option<&Vec<u8>>) -> (r: Vec<(String, String)>)
    ensures
        tag_views(r@) == request_tags(
            url@,
            method@,
            match payload {
                Some(b) => Some(b@),
                None => None,
            },
        ),
{
    let mut tags: Vec<(String, String)> = Vec::new();
    proof {
        assert(tag_views(tags@) =~= Seq::empty());
    }
    push_tag(&mut tags, "u", url);
    push_tag(&mut tags, "method", method);
    if let Some(body) = payload {
        push_tag(&mut tags, "payload", keys::hex_encode(&keys::sha256(body)).as_str());
    }
    tags
}

/// The `Authorization` header with a signed event, given as JSON.
pub fn build_auth_header(event: &str) -> (r: String)
    ensures
        r@ == "Nostr "@ + keys::base64_of(event@),
{
    text::cat2("Nostr ", keys::base64_encode(event).as_str())
}

/// The event for a request names its address and its method, whatever its body.
pub proof fn law_request_is_named(url: Seq<char>, method: Seq<char>, body: Option<Seq<u8>>)
    ensures
        request_tags(url, method, body).len() >= 2,
        request_tags(url, method, body)[0] == ("u"@, url),
        request_tags(url, method, body)[1] == ("method"@, method),
{
}

} // verus!
