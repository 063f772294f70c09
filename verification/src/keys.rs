//! Keys, seeds and digests.

use vstd::prelude::*;
use crate::text;

verus! {

// ---------------------------------------------------------------------------
// Digests and encodings
// ---------------------------------------------------------------------------

/// The SHA-256 digest of bytes.
pub uninterp spec fn sha256_of(bytes: Seq<u8>) -> Seq<u8>;

/// `sha2::Sha256::digest`: the digest of the bytes, thirty-two bytes long. The result depends on
/// the bytes alone.
#[verifier::external_body]
pub(crate) fn sha256(bytes: &Vec<u8>) -> (r: Vec<u8>)
    ensures
        r@ == sha256_of(bytes@),
        r@.len() == 32,
{
    <sha2::Sha256 as sha2::Digest>::digest(bytes).to_vec()
}

/// The lower-case hexadecimal digit of a number below sixteen.
pub open spec fn hex_digit(n: u8) -> char {
    if n < 10 {
        (0x30 + n) as char
    } else {
        (0x57 + n) as char
    }
}

/// Bytes in hexadecimal: two lower-case digits each.
pub open spec fn hex_text(bytes: Seq<u8>) -> Seq<char>
    decreases bytes.len(),
{
    if bytes.len() == 0 {
        Seq::empty()
    } else {
        hex_text(bytes.drop_last()) + seq![hex_digit(bytes.last() / 16), hex_digit(
            bytes.last() % 16,
        )]
    }
}

/// `hex::encode`: two lower-case hexadecimal digits for each byte.
#[verifier::external_body]
pub(crate) fn hex_encode(bytes: &Vec<u8>) -> (r: String)
    ensures
        r@ == hex_text(bytes@),
{
    hex::encode(bytes)
}

/// The base64 digit of a number below sixty-four.
pub open spec fn base64_digit(n: int) -> char {
    if n < 26 {
        ('A' as int + n) as char
    } else if n < 52 {
        ('a' as int + n - 26) as char
    } else if n < 62 {
        ('0' as int + n - 52) as char
    } else if n == 62 {
        '+'
    } else {
        '/'
    }
}

/// Bytes in base64: three at a time as four digits of six bits, with `=` in place of the digits
/// that the last bytes leave empty.
pub open spec fn base64_text(b: Seq<u8>) -> Seq<char>
    decreases b.len(),
{
    if b.len() == 0 {
        Seq::empty()
    } else {
        let first = base64_digit((b[0] / 4) as int);
        if b.len() == 1 {
            seq![first, base64_digit(b[0] % 4 * 16), '=', '=']
        } else {
            let second = base64_digit(b[0] % 4 * 16 + b[1] / 16);
            if b.len() == 2 {
                seq![first, second, base64_digit(b[1] % 16 * 4), '=']
            } else {
                seq![
                    first,
                    second,
                    base64_digit(b[1] % 16 * 4 + b[2] / 64),
                    base64_digit((b[2] % 64) as int),
                ] + base64_text(b.skip(3))
            }
        }
    }
}

/// Text in base64, by the bytes of its UTF-8 form.
pub open spec fn base64_of(s: Seq<char>) -> Seq<char> {
    base64_text(vstd::utf8::encode_utf8(s))
}

/// The `encode` of `base64::engine::general_purpose::STANDARD`: the UTF-8 bytes of a text in the
/// standard alphabet, padded with `=` to a multiple of four digits.
#[verifier::external_body]
pub(crate) fn base64_encode(s: &str) -> (r: String)
    ensures
        r@ == base64_of(s@),
{
    base64::Engine::encode(&base64::engine::general_purpose::STANDARD, s)
}

/// The number of a base64 digit.
pub open spec fn base64_value(c: char) -> int {
    if 'A' <= c <= 'Z' {
        c as int - 'A' as int
    } else if 'a' <= c <= 'z' {
        c as int - 'a' as int + 26
    } else if '0' <= c <= '9' {
        c as int - '0' as int + 52
    } else if c == '+' {
        62
    } else {
        63
    }
}

/// The bytes that a text in base64 stands for.
pub open spec fn base64_bytes(s: Seq<char>) -> Seq<u8>
    decreases s.len(),
{
    if s.len() < 4 {
        Seq::empty()
    } else {
        let (v, w) = (base64_value(s[0]), base64_value(s[1]));
        let (x, y) = (base64_value(s[2]), base64_value(s[3]));
        let first = (v * 4 + w / 16) as u8;
        let second = (w % 16 * 16 + x / 4) as u8;
        if s[2] == '=' {
            seq![first]
        } else if s[3] == '=' {
            seq![first, second]
        } else {
            seq![first, second, (x % 4 * 64 + y) as u8] + base64_bytes(s.skip(4))
        }
    }
}

proof fn lemma_base64_digit(n: int)
    requires
        0 <= n < 64,
    ensures
        base64_value(base64_digit(n)) == n,
        base64_digit(n) != '=',
{
}

proof fn lemma_base64_bytes(b: Seq<u8>)
    ensures
        base64_bytes(base64_text(b)) == b,
        base64_text(b).len() == (b.len() + 2) / 3 * 4,
    decreases b.len(),
{
    let t = base64_text(b);
    if b.len() > 0 {
        lemma_base64_digit((b[0] / 4) as int);
        if b.len() == 1 {
            lemma_base64_digit(b[0] % 4 * 16);
            assert(base64_bytes(t) =~= b);
        } else {
            lemma_base64_digit(b[0] % 4 * 16 + b[1] / 16);
            if b.len() == 2 {
                lemma_base64_digit(b[1] % 16 * 4);
                assert(base64_bytes(t) =~= b);
            } else {
                lemma_base64_digit(b[1] % 16 * 4 + b[2] / 64);
                lemma_base64_digit((b[2] % 64) as int);
                lemma_base64_bytes(b.skip(3));
                assert(t.skip(4) =~= base64_text(b.skip(3)));
                assert(base64_bytes(t) =~= b);
            }
        }
    } else {
        assert(b =~= Seq::empty());
    }
}

/// A text is read back from its base64, which is a whole number of groups of four digits.
pub proof fn law_base64_reads_back(s: Seq<char>)
    ensures
        vstd::utf8::decode_utf8(base64_bytes(base64_of(s))) == s,
        base64_of(s).len() % 4 == 0,
{
    lemma_base64_bytes(vstd::utf8::encode_utf8(s));
    vstd::utf8::encode_utf8_decode_utf8(s);
}

// ---------------------------------------------------------------------------
// Public keys
// ---------------------------------------------------------------------------

/// The public key that a text stands for, in hexadecimal.
pub uninterp spec fn public_key_hex(s: Seq<char>) -> Option<Seq<char>>;

/// `nostr_sdk::PublicKey::parse` and its `to_hex`: the key that a text in hexadecimal, bech32 or
/// as a `nostr:` address stands for, or nothing where it stands for none. The result depends on
/// the text alone.
#[verifier::external_body]
pub(crate) fn parse_public_key(s: &str) -> (r: Option<String>)
    ensures
        text::opt_view(r) == public_key_hex(s@),
{
    nostr_sdk::PublicKey::parse(s).ok().map(|k| k.to_hex())
}

// ---------------------------------------------------------------------------
// Seeds
// ---------------------------------------------------------------------------

/// `String::from_utf8`: the text that bytes are the UTF-8 form of, or nothing where they are the
/// form of none.
#[verifier::external_body]
pub(crate) fn utf8_text(bytes: Vec<u8>) -> (r: Option<String>)
    ensures
        match r {
            Some(s) => vstd::utf8::valid_utf8(bytes@) && s@ == vstd::utf8::decode_utf8(bytes@),
            None => !vstd::utf8::valid_utf8(bytes@),
        },
{
    String::from_utf8(bytes).ok()
}

/// The seed of a mnemonic phrase without a passphrase.
pub uninterp spec fn mnemonic_seed_of(words: Seq<char>) -> Option<Seq<u8>>;

/// The view of an optional seed.
pub open spec fn opt_bytes(b: Option<Vec<u8>>) -> Option<Seq<u8>> {
    match b {
        Some(v) => Some(v@),
        None => None,
    }
}

/// `bip39::Mnemonic::parse_normalized` and its `to_seed_normalized` with an empty passphrase: the
/// sixty-four bytes that a mnemonic phrase stands for, or nothing where the text is none. The
/// result depends on the text alone.
#[verifier::external_body]
pub(crate) fn mnemonic_seed(words: &str) -> (r: Option<Vec<u8>>)
    ensures
        opt_bytes(r) == mnemonic_seed_of(words@),
        match r {
            Some(v) => v@.len() == 64,
            None => true,
        },
{
    bip39::Mnemonic::parse_normalized(words).ok().map(|m| m.to_seed_normalized("").to_vec())
}

/// `bip39::Mnemonic::generate` of twenty-four words and its `to_seed_normalized` with an empty
/// passphrase: sixty-four bytes. Twenty-four is a number of words that a phrase can have, so there
/// always is a seed. Which one is left to chance.
#[verifier::external_body]
pub(crate) fn random_seed() -> (r: Option<Vec<u8>>)
    ensures
        r is Some,
        r->0@.len() == 64,
{
    bip39::Mnemonic::generate(24).ok().map(|m| m.to_seed_normalized("").to_vec())
}

/// The value of a hexadecimal digit in lower case.
pub open spec fn hex_value(c: char) -> int {
    if '0' <= c <= '9' {
        c as int - '0' as int
    } else {
        c as int - 'a' as int + 10
    }
}

/// Bytes are written in two hexadecimal digits each, the higher one first.
pub proof fn law_hex_reads_back(bytes: Seq<u8>, i: int)
    requires
        0 <= i < bytes.len(),
    ensures
        hex_text(bytes).len() == 2 * bytes.len(),
        hex_value(hex_text(bytes)[2 * i]) * 16 + hex_value(hex_text(bytes)[2 * i + 1]) == bytes[i],
        '0' <= hex_text(bytes)[2 * i] <= '9' || 'a' <= hex_text(bytes)[2 * i] <= 'f',
        '0' <= hex_text(bytes)[2 * i + 1] <= '9' || 'a' <= hex_text(bytes)[2 * i + 1] <= 'f',
    decreases bytes.len(),
{
    let init = bytes.drop_last();
    let b = bytes.last();
    lemma_hex_len(init);
    assert(0 <= b / 16 < 16 && 0 <= b % 16 < 16);
    if i < init.len() {
        law_hex_reads_back(init, i);
        assert(hex_text(bytes)[2 * i] == hex_text(init)[2 * i]);
        assert(hex_text(bytes)[2 * i + 1] == hex_text(init)[2 * i + 1]);
    } else {
        assert(hex_text(bytes)[2 * i] == hex_digit(b / 16));
        assert(hex_text(bytes)[2 * i + 1] == hex_digit(b % 16));
    }
}

proof fn lemma_hex_len(bytes: Seq<u8>)
    ensures
        hex_text(bytes).len() == 2 * bytes.len(),
    decreases bytes.len(),
{
    if bytes.len() > 0 {
        lemma_hex_len(bytes.drop_last());
    }
}

} // verus!
