//! Percent-encoding.

use vstd::prelude::*;

verus! {

/// Whether a byte stands for itself in an address.
pub open spec fn unreserved(b: u8) -> bool {
    0x41 <= b <= 0x5a || 0x61 <= b <= 0x7a || 0x30 <= b <= 0x39 || b == 0x2d || b == 0x5f || b
        == 0x2e || b == 0x7e
}

/// The hexadecimal digit of a number below sixteen.
pub open spec fn hex_digit(n: u8) -> char {
    if n < 10 {
        (0x30 + n) as char
    } else {
        (0x37 + n) as char
    }
}

/// A byte in an address: itself, or a percent sign and two hexadecimal digits.
pub open spec fn encoded_byte(b: u8) -> Seq<char> {
    if unreserved(b) {
        seq![b as char]
    } else {
        seq!['%', hex_digit(b / 16), hex_digit(b % 16)]
    }
}

/// Bytes in an address.
pub open spec fn encoded_bytes(bytes: Seq<u8>) -> Seq<char>
    decreases bytes.len(),
{
    if bytes.len() == 0 {
        Seq::empty()
    } else {
        encoded_bytes(bytes.drop_last()) + encoded_byte(bytes.last())
    }
}

/// A text in an address, by the bytes of its UTF-8 form.
pub open spec fn percent_encoded(s: Seq<char>) -> Seq<char> {
    encoded_bytes(vstd::utf8::encode_utf8(s))
}

fn digit_of(n: u8) -> (r: char)
    requires
        n < 16,
    ensures
        r == hex_digit(n),
{
    if n < 10 {
        (0x30 + n) as char
    } else {
        (0x37 + n) as char
    }
}

/// Encodes a text for an address.
pub fn url_encode(s: &str) -> (r: String)
    ensures
        r@ == percent_encoded(s@),
{
    let bytes = s.as_bytes();
    let ghost all = bytes@;
    let mut out = String::new();
    let mut i: usize = 0;
    proof {
        assert(all.take(0) =~= Seq::empty());
    }
    while i < bytes.len()
        invariant
            i <= bytes.len(),
            all == bytes@,
            out@ == encoded_bytes(all.take(i as int)),
        decreases bytes.len() - i,
    {
        let b: u8 = bytes[i];
        let ghost before = out@;
        proof {
            assert(all.take(i + 1).drop_last() =~= all.take(i as int));
            assert(all.take(i + 1).last() == b);
        }
        if (0x41 <= b && b <= 0x5a) || (0x61 <= b && b <= 0x7a) || (0x30 <= b && b <= 0x39) || b
            == 0x2d || b == 0x5f || b == 0x2e || b == 0x7e {
            out.push(b as char);
        } else {
            out.push('%');
            out.push(digit_of(b / 16));
            out.push(digit_of(b % 16));
        }
        proof {
            assert(out@ =~= before + encoded_byte(b));
        }
        i = i + 1;
    }
    proof {
        assert(all.take(i as int) =~= all);
    }
    out
}

/// `urlencoding::encode`: letters, digits, `-`, `_`, `.` and `~` stand for themselves, and every
/// other byte of the UTF-8 form becomes a percent sign and two upper-case hexadecimal digits.
#[verifier::external_body]
pub(crate) fn encode(s: &str) -> (r: String)
    ensures
        r@ == percent_encoded(s@),
{
    urlencoding::encode(s).into_owned()
}

// ---------------------------------------------------------------------------
// Reading an encoded text back
// ---------------------------------------------------------------------------

/// The number of an upper-case hexadecimal digit.
pub open spec fn hex_value(c: char) -> int {
    if c <= '9' {
        c as int - 0x30
    } else {
        c as int - 0x37
    }
}

/// The bytes that stand in an address: a percent sign and two hexadecimal digits are one byte, and
/// any other character is its own.
pub open spec fn decoded_bytes(s: Seq<char>) -> Seq<u8>
    decreases s.len(),
{
    if s.len() == 0 {
        Seq::empty()
    } else if s[0] == '%' && s.len() >= 3 {
        seq![(16 * hex_value(s[1]) + hex_value(s[2])) as u8] + decoded_bytes(s.skip(3))
    } else {
        seq![s[0] as u8] + decoded_bytes(s.skip(1))
    }
}

/// Whether a character can stand in an encoded text.
pub open spec fn in_address(c: char) -> bool {
    c == '%' || ('\0' <= c <= '\u{7f}' && unreserved(c as u8))
}

/// What was encoded is read back, and no two texts are encoded alike.
pub proof fn law_encoding_reads_back(s: Seq<char>, t: Seq<char>)
    ensures
        decoded_bytes(percent_encoded(s)) == vstd::utf8::encode_utf8(s),
        vstd::utf8::decode_utf8(decoded_bytes(percent_encoded(s))) == s,
        percent_encoded(s) == percent_encoded(t) ==> s == t,
{
    lemma_decode_encoded(vstd::utf8::encode_utf8(s));
    lemma_decode_encoded(vstd::utf8::encode_utf8(t));
    vstd::utf8::encode_utf8_decode_utf8(s);
    vstd::utf8::encode_utf8_decode_utf8(t);
}

/// Whether a character is an upper-case hexadecimal digit.
pub open spec fn is_hex_digit(c: char) -> bool {
    '0' <= c <= '9' || 'A' <= c <= 'F'
}

/// Whether a percent sign at an index has two hexadecimal digits behind it.
pub open spec fn digits_follow(s: Seq<char>, i: int) -> bool {
    s[i] == '%' ==> i + 2 < s.len() && is_hex_digit(s[i + 1]) && is_hex_digit(s[i + 2])
}

/// An encoded text holds letters, digits, `-`, `_`, `.` and `~`, and percent signs with two
/// upper-case hexadecimal digits behind each.
pub proof fn law_encoding_alphabet(s: Seq<char>)
    ensures
        forall|i: int|
            0 <= i < percent_encoded(s).len() ==> in_address(#[trigger] percent_encoded(s)[i]),
        forall|i: int|
            0 <= i < percent_encoded(s).len() ==> #[trigger] digits_follow(percent_encoded(s), i),
{
    lemma_encoded_alphabet(vstd::utf8::encode_utf8(s));
}

/// A text is its own encoding where each of its bytes stands for itself, and only there.
pub proof fn law_plain_text_is_kept(s: Seq<char>)
    ensures
        percent_encoded(s) == s <==> forall|i: int|
            0 <= i < vstd::utf8::encode_utf8(s).len() ==> unreserved(
                #[trigger] vstd::utf8::encode_utf8(s)[i],
            ),
{
    let bytes = vstd::utf8::encode_utf8(s);
    lemma_encoded_size(bytes);
    if percent_encoded(s) == s {
        law_encoding_alphabet(s);
        assert forall|i: int| 0 <= i < s.len() implies '\0' <= #[trigger] s[i] <= '\u{7f}' by {
            assert(in_address(percent_encoded(s)[i]));
        }
        vstd::utf8::is_ascii_chars_encode_utf8(s);
    }
    if forall|i: int| 0 <= i < bytes.len() ==> unreserved(#[trigger] bytes[i]) {
        let same = Seq::new(bytes.len(), |i: int| bytes[i] as char);
        assert forall|i: int| 0 <= i < same.len() implies '\0' <= #[trigger] same[i]
            <= '\u{7f}' by {
            assert(unreserved(bytes[i]));
        }
        vstd::utf8::is_ascii_chars_encode_utf8(same);
        assert(vstd::utf8::encode_utf8(same) =~= bytes);
        vstd::utf8::encode_utf8_decode_utf8(same);
        vstd::utf8::encode_utf8_decode_utf8(s);
        assert(same == s);
        lemma_encoded_plain(bytes);
        assert(encoded_bytes(bytes) =~= same);
    }
}

proof fn lemma_byte_digits(b: u8)
    ensures
        hex_value(hex_digit(b / 16)) == b / 16,
        hex_value(hex_digit(b % 16)) == b % 16,
        is_hex_digit(hex_digit(b / 16)),
        is_hex_digit(hex_digit(b % 16)),
        in_address(hex_digit(b / 16)),
        in_address(hex_digit(b % 16)),
        16 * (b / 16) + b % 16 == b,
        b / 16 < 16,
        b % 16 < 16,
{
}

proof fn lemma_encoded_from_front(bytes: Seq<u8>)
    requires
        bytes.len() > 0,
    ensures
        encoded_bytes(bytes) == encoded_byte(bytes[0]) + encoded_bytes(bytes.drop_first()),
    decreases bytes.len(),
{
    let init = bytes.drop_last();
    if init.len() > 0 {
        lemma_encoded_from_front(init);
        assert(init.drop_first() =~= bytes.drop_first().drop_last());
        assert(init[0] == bytes[0]);
        assert(encoded_bytes(bytes) =~= encoded_byte(bytes[0]) + (encoded_bytes(init.drop_first())
            + encoded_byte(bytes.last())));
    } else {
        assert(bytes.drop_first() =~= Seq::empty());
        assert(encoded_bytes(init) =~= Seq::empty());
        assert(encoded_bytes(bytes) =~= encoded_byte(bytes[0]) + encoded_bytes(
            bytes.drop_first(),
        ));
    }
}

proof fn lemma_decode_encoded(bytes: Seq<u8>)
    ensures
        decoded_bytes(encoded_bytes(bytes)) == bytes,
    decreases bytes.len(),
{
    if bytes.len() > 0 {
        let b = bytes[0];
        let rest = encoded_bytes(bytes.drop_first());
        let all = encoded_bytes(bytes);
        lemma_encoded_from_front(bytes);
        lemma_decode_encoded(bytes.drop_first());
        lemma_byte_digits(b);
        if unreserved(b) {
            assert(all[0] == b as char);
            assert(all.skip(1) =~= rest);
        } else {
            assert(all[0] == '%' && all[1] == hex_digit(b / 16) && all[2] == hex_digit(b % 16));
            assert(all.skip(3) =~= rest);
        }
        assert(decoded_bytes(all) =~= seq![b] + bytes.drop_first());
        assert(bytes =~= seq![b] + bytes.drop_first());
    } else {
        assert(bytes =~= Seq::empty());
    }
}

proof fn lemma_encoded_alphabet(bytes: Seq<u8>)
    ensures
        forall|i: int|
            0 <= i < encoded_bytes(bytes).len() ==> in_address(#[trigger] encoded_bytes(bytes)[i]),
        forall|i: int|
            0 <= i < encoded_bytes(bytes).len() ==> #[trigger] digits_follow(
                encoded_bytes(bytes),
                i,
            ),
    decreases bytes.len(),
{
    if bytes.len() > 0 {
        let init = encoded_bytes(bytes.drop_last());
        lemma_encoded_alphabet(bytes.drop_last());
        lemma_byte_digits(bytes.last());
        assert forall|i: int| 0 <= i < encoded_bytes(bytes).len() implies in_address(
            #[trigger] encoded_bytes(bytes)[i],
        ) by {
            if i < init.len() {
                assert(encoded_bytes(bytes)[i] == init[i]);
            } else {
                assert(encoded_bytes(bytes)[i] == encoded_byte(bytes.last())[i - init.len()]);
            }
        }
        assert forall|i: int| 0 <= i < encoded_bytes(bytes).len() implies #[trigger] digits_follow(
            encoded_bytes(bytes),
            i,
        ) by {
            if i < init.len() {
                assert(digits_follow(init, i));
            }
        }
    }
}

proof fn lemma_encoded_size(bytes: Seq<u8>)
    ensures
        encoded_bytes(bytes).len() >= bytes.len(),
        encoded_bytes(bytes).len() == bytes.len() ==> forall|i: int|
            0 <= i < bytes.len() ==> unreserved(#[trigger] bytes[i]),
    decreases bytes.len(),
{
    if bytes.len() > 0 {
        let init = bytes.drop_last();
        lemma_encoded_size(init);
        if encoded_bytes(bytes).len() == bytes.len() {
            assert forall|i: int| 0 <= i < bytes.len() implies unreserved(#[trigger] bytes[i]) by {
                if i < init.len() {
                    assert(init[i] == bytes[i]);
                }
            }
        }
    }
}

proof fn lemma_encoded_plain(bytes: Seq<u8>)
    requires
        forall|i: int| 0 <= i < bytes.len() ==> unreserved(#[trigger] bytes[i]),
    ensures
        encoded_bytes(bytes) == Seq::new(bytes.len(), |i: int| bytes[i] as char),
    decreases bytes.len(),
{
    if bytes.len() > 0 {
        let init = bytes.drop_last();
        assert forall|i: int| 0 <= i < init.len() implies unreserved(#[trigger] init[i]) by {
            assert(init[i] == bytes[i]);
        }
        lemma_encoded_plain(init);
        assert(unreserved(bytes[bytes.len() - 1]));
    }
    assert(encoded_bytes(bytes) =~= Seq::new(bytes.len(), |i: int| bytes[i] as char));
}

} // verus!
