//! Strings as sequences of characters: trimming, splitting, searching, numbers in decimal.

use vstd::prelude::*;

verus! {

/// `str` equality compares the characters of the two strings.
pub assume_specification[ <str as PartialEq>::eq ](a: &str, b: &str) -> (r: bool)
    ensures
        r == (a@ == b@),
;

/// `String::push` appends one character.
pub assume_specification[ String::push ](s: &mut String, c: char)
    ensures
        final(s)@ == old(s)@.push(c),
;

/// `String::push_str` appends a string.
pub assume_specification[ String::push_str ](s: &mut String, t: &str)
    ensures
        final(s)@ == old(s)@ + t@,
;

/// Whether a character above ASCII has the Unicode `White_Space` property.
pub uninterp spec fn wide_whitespace(c: char) -> bool;

/// Whether a character has the Unicode `White_Space` property.
pub open spec fn char_is_whitespace(c: char) -> bool {
    if c <= '\u{7f}' {
        c == ' ' || '\t' <= c <= '\r'
    } else {
        wide_whitespace(c)
    }
}

/// `char::is_whitespace`: a test for the Unicode `White_Space` property, which among the ASCII
/// characters holds of the space and of U+0009 to U+000D.
#[verifier::external_body]
pub(crate) fn is_whitespace(c: char) -> (r: bool)
    ensures
        c <= '\u{7f}' ==> (r <==> c == ' ' || '\t' <= c <= '\r'),
        c > '\u{7f}' ==> r == wide_whitespace(c),
{
    c.is_whitespace()
}

/// Whether a character above ASCII has the Unicode `Alphabetic` property.
pub uninterp spec fn wide_alphabetic(c: char) -> bool;

/// Whether a character has the Unicode `Alphabetic` property.
pub open spec fn char_is_alphabetic(c: char) -> bool {
    if c <= '\u{7f}' {
        ascii_letter(c)
    } else {
        wide_alphabetic(c)
    }
}

/// `char::is_alphabetic`: a test for the Unicode `Alphabetic` property, which among the ASCII
/// characters holds of the letters.
#[verifier::external_body]
pub(crate) fn is_alphabetic(c: char) -> (r: bool)
    ensures
        c <= '\u{7f}' ==> (r <==> ascii_letter(c)),
        c > '\u{7f}' ==> r == wide_alphabetic(c),
{
    c.is_alphabetic()
}

/// Whether a character above ASCII has the Unicode `Uppercase` property.
pub uninterp spec fn wide_uppercase(c: char) -> bool;

/// Whether a character has the Unicode `Uppercase` property.
pub open spec fn char_is_uppercase(c: char) -> bool {
    if c <= '\u{7f}' {
        'A' <= c <= 'Z'
    } else {
        wide_uppercase(c)
    }
}

/// `char::is_uppercase`: a test for the Unicode `Uppercase` property, which among the ASCII
/// characters holds of the capital letters.
#[verifier::external_body]
pub(crate) fn is_uppercase(c: char) -> (r: bool)
    ensures
        c <= '\u{7f}' ==> (r <==> 'A' <= c <= 'Z'),
        c > '\u{7f}' ==> r == wide_uppercase(c),
{
    c.is_uppercase()
}

/// The lowercase form of a string with characters above ASCII.
pub uninterp spec fn wide_lowercase_of(s: Seq<char>) -> Seq<char>;

/// The lowercase form of a string under Unicode's case mapping.
pub open spec fn str_lowercase(s: Seq<char>) -> Seq<char> {
    if ascii_only(s) {
        s.map_values(|c: char| ascii_lower(c))
    } else {
        wide_lowercase_of(s)
    }
}

/// `str::to_lowercase`: Unicode case mapping, which on ASCII strings changes the capital letters
/// one by one and leaves every other character. Elsewhere the result depends on the string alone.
#[verifier::external_body]
pub(crate) fn to_lowercase(s: &str) -> (r: String)
    ensures
        ascii_only(s@) ==> r@ == s@.map_values(|c: char| ascii_lower(c)),
        !ascii_only(s@) ==> r@ == wide_lowercase_of(s@),
{
    s.to_lowercase()
}

/// The uppercase form of a string with characters above ASCII.
pub uninterp spec fn wide_uppercase_of(s: Seq<char>) -> Seq<char>;

/// The uppercase form of a string under Unicode's case mapping.
pub open spec fn str_uppercase(s: Seq<char>) -> Seq<char> {
    if ascii_only(s) {
        s.map_values(|c: char| ascii_upper(c))
    } else {
        wide_uppercase_of(s)
    }
}

/// `str::to_uppercase`: Unicode case mapping, which on ASCII strings changes the small letters
/// one by one and leaves every other character. Elsewhere the result depends on the string alone.
#[verifier::external_body]
pub(crate) fn to_uppercase(s: &str) -> (r: String)
    ensures
        ascii_only(s@) ==> r@ == s@.map_values(|c: char| ascii_upper(c)),
        !ascii_only(s@) ==> r@ == wide_uppercase_of(s@),
{
    s.to_uppercase()
}

/// An ASCII letter.
pub open spec fn ascii_letter(c: char) -> bool {
    'a' <= c <= 'z' || 'A' <= c <= 'Z'
}

/// Every character is below U+0080.
pub open spec fn ascii_only(s: Seq<char>) -> bool {
    vstd::utf8::is_ascii_chars(s)
}

/// The small letter of an ASCII capital; any other character as it is.
pub open spec fn ascii_lower(c: char) -> char {
    if 'A' <= c <= 'Z' {
        (c as u32 + 32) as char
    } else {
        c
    }
}

/// The capital of an ASCII small letter; any other character as it is.
pub open spec fn ascii_upper(c: char) -> char {
    if 'a' <= c <= 'z' {
        (c as u32 - 32) as char
    } else {
        c
    }
}

/// The views of a sequence of owned strings.
pub open spec fn views(v: Seq<String>) -> Seq<Seq<char>> {
    v.map_values(|s: String| s@)
}

/// The view of an optional string.
pub open spec fn opt_view(s: Option<String>) -> Option<Seq<char>> {
    match s {
        Some(t) => Some(t@),
        None => None,
    }
}

/// The view of an optional string slice.
pub open spec fn opt_str_view(s: Option<&str>) -> Option<Seq<char>> {
    match s {
        Some(t) => Some(t@),
        None => None,
    }
}

// ---------------------------------------------------------------------------
// Characters and equality
// ---------------------------------------------------------------------------

/// Whether two strings have the same characters.
pub fn same(a: &str, b: &str) -> (r: bool)
    ensures
        r == (a@ == b@),
{
    *a == *b
}

/// The characters of a string.
pub fn chars_of(s: &str) -> (r: Vec<char>)
    ensures
        r@ == s@,
{
    let mut v: Vec<char> = Vec::new();
    for c in it: s.chars()
        invariant
            it.seq() == s@,
            v@ == s@.take(it.index() as int),
    {
        v.push(c);
    }
    v
}

/// A copy of a list of strings.
pub fn copy_strings(v: &Vec<String>) -> (r: Vec<String>)
    ensures
        views(r@) == views(v@),
{
    let mut out: Vec<String> = Vec::new();
    let mut i: usize = 0;
    while i < v.len()
        invariant
            i <= v.len(),
            out.len() == i,
            forall|k: int| 0 <= k < i ==> (#[trigger] out@[k])@ == v@[k]@,
        decreases v.len() - i,
    {
        out.push(v[i].clone());
        i = i + 1;
    }
    proof {
        assert(views(out@) =~= views(v@));
    }
    out
}

/// Whether a list holds a string.
pub fn list_contains(v: &Vec<String>, s: &str) -> (r: bool)
    ensures
        r == views(v@).contains(s@),
{
    let mut i: usize = 0;
    while i < v.len()
        invariant
            i <= v.len(),
            forall|k: int| 0 <= k < i ==> views(v@)[k] != s@,
        decreases v.len() - i,
    {
        if same(v[i].as_str(), s) {
            proof {
                assert(views(v@)[i as int] == s@);
            }
            return true;
        }
        i = i + 1;
    }
    false
}

/// The string, or another where there is none.
pub open spec fn or_else(s: Option<Seq<char>>, other: Seq<char>) -> Seq<char> {
    match s {
        Some(t) => t,
        None => other,
    }
}

/// An owned copy of a string, or of another where there is none.
pub fn own_or(s: Option<&str>, other: &str) -> (r: String)
    ensures
        r@ == or_else(opt_str_view(s), other@),
{
    match s {
        Some(t) => t.to_owned(),
        None => other.to_owned(),
    }
}

/// An owned copy of an optional string slice.
pub fn own_opt(s: Option<&str>) -> (r: Option<String>)
    ensures
        opt_view(r) == opt_str_view(s),
{
    match s {
        Some(t) => Some(t.to_owned()),
        None => None,
    }
}

/// A copy of an optional string.
pub fn copy_opt(s: &Option<String>) -> (r: Option<String>)
    ensures
        opt_view(r) == opt_view(*s),
{
    match s {
        Some(t) => Some(t.clone()),
        None => None,
    }
}

// ---------------------------------------------------------------------------
// Concatenation
// ---------------------------------------------------------------------------

/// `a` followed by `b`.
pub fn cat2(a: &str, b: &str) -> (r: String)
    ensures
        r@ == a@ + b@,
{
    let mut s = a.to_owned();
    s.push_str(b);
    s
}

/// Three strings in a row.
pub fn cat3(a: &str, b: &str, c: &str) -> (r: String)
    ensures
        r@ == a@ + b@ + c@,
{
    let mut s = cat2(a, b);
    s.push_str(c);
    s
}

/// Four strings in a row.
pub fn cat4(a: &str, b: &str, c: &str, d: &str) -> (r: String)
    ensures
        r@ == a@ + b@ + c@ + d@,
{
    let mut s = cat3(a, b, c);
    s.push_str(d);
    s
}

/// Five strings in a row.
pub fn cat5(a: &str, b: &str, c: &str, d: &str, e: &str) -> (r: String)
    ensures
        r@ == a@ + b@ + c@ + d@ + e@,
{
    let mut s = cat4(a, b, c, d);
    s.push_str(e);
    s
}

/// Six strings in a row.
pub fn cat6(a: &str, b: &str, c: &str, d: &str, e: &str, f: &str) -> (r: String)
    ensures
        r@ == a@ + b@ + c@ + d@ + e@ + f@,
{
    let mut s = cat5(a, b, c, d, e);
    s.push_str(f);
    s
}

/// Seven strings in a row.
pub fn cat7(a: &str, b: &str, c: &str, d: &str, e: &str, f: &str, g: &str) -> (r: String)
    ensures
        r@ == a@ + b@ + c@ + d@ + e@ + f@ + g@,
{
    let mut s = cat6(a, b, c, d, e, f);
    s.push_str(g);
    s
}

/// The strings of `parts` with `sep` between each two.
pub open spec fn joined(parts: Seq<Seq<char>>, sep: Seq<char>) -> Seq<char>
    decreases parts.len(),
{
    if parts.len() == 0 {
        Seq::empty()
    } else if parts.len() == 1 {
        parts[0]
    } else {
        joined(parts.drop_last(), sep) + sep + parts.last()
    }
}

/// Joins strings with a separator.
pub fn join(parts: &Vec<String>, sep: &str) -> (r: String)
    ensures
        r@ == joined(views(parts@), sep@),
{
    let mut s = String::new();
    let mut i: usize = 0;
    while i < parts.len()
        invariant
            i <= parts.len(),
            s@ == joined(views(parts@).take(i as int), sep@),
        decreases parts.len() - i,
    {
        proof {
            assert(views(parts@).take(i + 1).drop_last() =~= views(parts@).take(i as int));
        }
        if i > 0 {
            s.push_str(sep);
        }
        s.push_str(parts[i].as_str());
        i = i + 1;
    }
    proof {
        assert(views(parts@).take(i as int) =~= views(parts@));
    }
    s
}

// ---------------------------------------------------------------------------
// Trimming
// ---------------------------------------------------------------------------

/// `s` without its leading whitespace.
pub open spec fn trimmed_start(s: Seq<char>) -> Seq<char>
    decreases s.len(),
{
    if s.len() > 0 && char_is_whitespace(s[0]) {
        trimmed_start(s.drop_first())
    } else {
        s
    }
}

/// `s` without its trailing whitespace.
pub open spec fn trimmed_end(s: Seq<char>) -> Seq<char>
    decreases s.len(),
{
    if s.len() > 0 && char_is_whitespace(s.last()) {
        trimmed_end(s.drop_last())
    } else {
        s
    }
}

/// `s` without leading and trailing whitespace.
pub open spec fn trimmed(s: Seq<char>) -> Seq<char> {
    trimmed_end(trimmed_start(s))
}

/// `s` without its leading characters `c`.
pub open spec fn trimmed_start_char(s: Seq<char>, c: char) -> Seq<char>
    decreases s.len(),
{
    if s.len() > 0 && s[0] == c {
        trimmed_start_char(s.drop_first(), c)
    } else {
        s
    }
}

/// `s` without its trailing characters `c`.
pub open spec fn trimmed_end_char(s: Seq<char>, c: char) -> Seq<char>
    decreases s.len(),
{
    if s.len() > 0 && s.last() == c {
        trimmed_end_char(s.drop_last(), c)
    } else {
        s
    }
}

/// Trimming takes the whitespace around a string whose ends are none.
pub proof fn lemma_trim_around(before: Seq<char>, s: Seq<char>, after: Seq<char>)
    requires
        s.len() > 0,
        !char_is_whitespace(s[0]),
        !char_is_whitespace(s.last()),
        forall|i: int| 0 <= i < before.len() ==> char_is_whitespace(#[trigger] before[i]),
        forall|i: int| 0 <= i < after.len() ==> char_is_whitespace(#[trigger] after[i]),
    ensures
        trimmed(before + s + after) == s,
    decreases before.len() + after.len(),
{
    let all = before + s + after;
    if before.len() > 0 {
        let rest = before.drop_first();
        assert(all[0] == before[0]);
        assert(all.drop_first() =~= rest + s + after);
        assert forall|i: int| 0 <= i < rest.len() implies char_is_whitespace(#[trigger] rest[i]) by {
            assert(rest[i] == before[i + 1]);
        }
        lemma_trim_around(rest, s, after);
    } else if after.len() > 0 {
        let rest = after.drop_last();
        assert(all[0] == s[0]);
        assert(all.last() == after[after.len() - 1]);
        assert(all.drop_last() =~= before + s + rest);
        assert((before + s + rest)[0] == s[0]);
        assert forall|i: int| 0 <= i < rest.len() implies char_is_whitespace(#[trigger] rest[i]) by {
            assert(rest[i] == after[i]);
        }
        lemma_trim_around(before, s, rest);
    } else {
        assert(all =~= s);
    }
}

/// Trimming takes the trailing `c` of what follows a string that ends in another character.
pub proof fn lemma_trim_end_char_after(s: Seq<char>, t: Seq<char>, c: char)
    requires
        s.len() > 0,
        s.last() != c,
    ensures
        trimmed_end_char(s + t, c) == s + trimmed_end_char(t, c),
        trimmed_end_char(t, c).is_prefix_of(t),
    decreases t.len(),
{
    if t.len() > 0 && t.last() == c {
        assert((s + t).drop_last() =~= s + t.drop_last());
        assert((s + t).last() == c);
        lemma_trim_end_char_after(s, t.drop_last(), c);
    } else if t.len() == 0 {
        assert(s + t =~= s);
    } else {
        assert((s + t).last() == t.last());
    }
}

/// Drops leading whitespace.
pub fn trim_start<'a>(s: &'a str) -> (r: &'a str)
    ensures
        r@ == trimmed_start(s@),
{
    let v = chars_of(s);
    let mut i: usize = 0;
    proof {
        assert(s@.skip(0) =~= s@);
    }
    while i < v.len() && is_whitespace(v[i])
        invariant
            v@ == s@,
            i <= v.len(),
            trimmed_start(s@) == trimmed_start(s@.skip(i as int)),
        decreases v.len() - i,
    {
        proof {
            assert(s@.skip(i as int).drop_first() =~= s@.skip(i + 1));
        }
        i = i + 1;
    }
    proof {
        assert(s@.skip(i as int) =~= s@.subrange(i as int, s@.len() as int));
    }
    s.substring_char(i, v.len())
}

/// Drops trailing whitespace.
pub fn trim_end<'a>(s: &'a str) -> (r: &'a str)
    ensures
        r@ == trimmed_end(s@),
{
    let v = chars_of(s);
    let mut i: usize = v.len();
    proof {
        assert(s@.take(i as int) =~= s@);
    }
    while i > 0 && is_whitespace(v[i - 1])
        invariant
            v@ == s@,
            i <= v.len(),
            trimmed_end(s@) == trimmed_end(s@.take(i as int)),
        decreases i,
    {
        proof {
            assert(s@.take(i as int).drop_last() =~= s@.take(i - 1));
        }
        i = i - 1;
    }
    s.substring_char(0, i)
}

/// Drops leading and trailing whitespace.
pub fn trim<'a>(s: &'a str) -> (r: &'a str)
    ensures
        r@ == trimmed(s@),
{
    trim_end(trim_start(s))
}

/// Drops every leading `c`.
pub fn trim_start_char<'a>(s: &'a str, c: char) -> (r: &'a str)
    ensures
        r@ == trimmed_start_char(s@, c),
{
    let v = chars_of(s);
    let mut i: usize = 0;
    proof {
        assert(s@.skip(0) =~= s@);
    }
    while i < v.len() && v[i] == c
        invariant
            v@ == s@,
            i <= v.len(),
            trimmed_start_char(s@, c) == trimmed_start_char(s@.skip(i as int), c),
        decreases v.len() - i,
    {
        proof {
            assert(s@.skip(i as int).drop_first() =~= s@.skip(i + 1));
        }
        i = i + 1;
    }
    proof {
        assert(s@.skip(i as int) =~= s@.subrange(i as int, s@.len() as int));
    }
    s.substring_char(i, v.len())
}

/// Drops every trailing `c`.
pub fn trim_end_char<'a>(s: &'a str, c: char) -> (r: &'a str)
    ensures
        r@ == trimmed_end_char(s@, c),
{
    let v = chars_of(s);
    let mut i: usize = v.len();
    proof {
        assert(s@.take(i as int) =~= s@);
    }
    while i > 0 && v[i - 1] == c
        invariant
            v@ == s@,
            i <= v.len(),
            trimmed_end_char(s@, c) == trimmed_end_char(s@.take(i as int), c),
        decreases i,
    {
        proof {
            assert(s@.take(i as int).drop_last() =~= s@.take(i - 1));
        }
        i = i - 1;
    }
    s.substring_char(0, i)
}

// ---------------------------------------------------------------------------
// Prefixes, suffixes and substrings
// ---------------------------------------------------------------------------

/// `p` occurs in `s` at `i`.
pub open spec fn occurs_at(s: Seq<char>, p: Seq<char>, i: int) -> bool {
    0 <= i && i + p.len() <= s.len() && s.subrange(i, i + p.len()) == p
}

/// `p` occurs in `s`.
pub open spec fn has_substring(s: Seq<char>, p: Seq<char>) -> bool {
    exists|i: int| occurs_at(s, p, i)
}

/// What occurs in a part occurs in the whole.
pub proof fn lemma_substring_of_part(s: Seq<char>, t: Seq<char>, p: Seq<char>)
    requires
        has_substring(s, t),
        has_substring(t, p),
    ensures
        has_substring(s, p),
{
    let i = choose|i: int| occurs_at(s, t, i);
    let j = choose|j: int| occurs_at(t, p, j);
    assert(s.subrange(i + j, i + j + p.len()) =~= t.subrange(j, j + p.len()));
    assert(occurs_at(s, p, i + j));
}

/// Whatever stands around a string, the string occurs there.
pub proof fn lemma_substring_between(a: Seq<char>, p: Seq<char>, b: Seq<char>)
    ensures
        has_substring(a + p + b, p),
{
    assert((a + p + b).subrange(a.len() as int, (a.len() + p.len()) as int) =~= p);
    assert(occurs_at(a + p + b, p, a.len() as int));
}

/// Each of the strings that are joined occurs in what they make.
pub proof fn lemma_joined_holds(parts: Seq<Seq<char>>, sep: Seq<char>, k: int)
    requires
        0 <= k < parts.len(),
    ensures
        has_substring(joined(parts, sep), parts[k]),
    decreases parts.len(),
{
    let init = parts.drop_last();
    let whole = joined(parts, sep);
    if parts.len() == 1 {
        lemma_substring_between(Seq::empty(), parts[k], Seq::empty());
        assert(Seq::empty() + parts[k] + Seq::empty() =~= whole);
    } else if k == init.len() {
        lemma_substring_between(joined(init, sep) + sep, parts[k], Seq::empty());
        assert(joined(init, sep) + sep + parts[k] + Seq::empty() =~= whole);
    } else {
        lemma_joined_holds(init, sep, k);
        lemma_substring_between(Seq::empty(), joined(init, sep), sep + parts.last());
        assert(Seq::empty() + joined(init, sep) + (sep + parts.last()) =~= whole);
        lemma_substring_of_part(whole, joined(init, sep), init[k]);
    }
}

fn chars_occur_at(s: &Vec<char>, p: &Vec<char>, i: usize) -> (r: bool)
    requires
        i <= s.len(),
    ensures
        r == occurs_at(s@, p@, i as int),
{
    if p.len() > s.len() - i {
        return false;
    }
    let mut k: usize = 0;
    while k < p.len()
        invariant
            k <= p.len(),
            i + p.len() <= s.len(),
            forall|j: int| 0 <= j < k ==> s@[i + j] == #[trigger] p@[j],
        decreases p.len() - k,
    {
        if s[i + k] != p[k] {
            proof {
                assert(s@.subrange(i as int, i + p@.len())[k as int] != p@[k as int]);
            }
            return false;
        }
        k = k + 1;
    }
    proof {
        assert(s@.subrange(i as int, i + p@.len()) =~= p@);
    }
    true
}

/// Whether `s` begins with `p`.
pub fn starts_with(s: &str, p: &str) -> (r: bool)
    ensures
        r == p@.is_prefix_of(s@),
{
    let v = chars_of(s);
    let w = chars_of(p);
    chars_occur_at(&v, &w, 0)
}

/// Whether `s` begins with the character `c`.
pub fn starts_with_char(s: &str, c: char) -> (r: bool)
    ensures
        r == (s@.len() > 0 && s@[0] == c),
{
    if s.is_empty() {
        return false;
    }
    s.get_char(0) == c
}

/// Whether `s` ends with `p`.
pub fn ends_with(s: &str, p: &str) -> (r: bool)
    ensures
        r == p@.is_suffix_of(s@),
{
    let v = chars_of(s);
    let w = chars_of(p);
    if w.len() > v.len() {
        return false;
    }
    chars_occur_at(&v, &w, v.len() - w.len())
}

/// What follows the prefix `p` of `s`.
pub open spec fn stripped_prefix(s: Seq<char>, p: Seq<char>) -> Option<Seq<char>> {
    if p.is_prefix_of(s) {
        Some(s.skip(p.len() as int))
    } else {
        None
    }
}

/// What comes before the suffix `p` of `s`.
pub open spec fn stripped_suffix(s: Seq<char>, p: Seq<char>) -> Option<Seq<char>> {
    if p.is_suffix_of(s) {
        Some(s.take(s.len() - p.len()))
    } else {
        None
    }
}

/// Removes a prefix.
pub fn strip_prefix<'a>(s: &'a str, p: &str) -> (r: Option<&'a str>)
    ensures
        opt_str_view(r) == stripped_prefix(s@, p@),
{
    if starts_with(s, p) {
        let n: usize = s.unicode_len();
        let m: usize = p.unicode_len();
        let rest = s.substring_char(m, n);
        proof {
            assert(rest@ =~= s@.skip(p@.len() as int));
        }
        Some(rest)
    } else {
        None
    }
}

/// Removes a suffix.
pub fn strip_suffix<'a>(s: &'a str, p: &str) -> (r: Option<&'a str>)
    ensures
        opt_str_view(r) == stripped_suffix(s@, p@),
{
    if ends_with(s, p) {
        let n: usize = s.unicode_len();
        let m: usize = p.unicode_len();
        let rest = s.substring_char(0, n - m);
        proof {
            assert(rest@ =~= s@.take(s@.len() - p@.len()));
        }
        Some(rest)
    } else {
        None
    }
}

/// `s` without any number of `p` at its end.
pub open spec fn trimmed_end_str(s: Seq<char>, p: Seq<char>) -> Seq<char>
    decreases s.len(),
{
    if p.len() > 0 && p.is_suffix_of(s) {
        trimmed_end_str(s.take(s.len() - p.len()), p)
    } else {
        s
    }
}

/// Drops every `p` at the end.
pub fn trim_end_str<'a>(s: &'a str, p: &str) -> (r: &'a str)
    ensures
        r@ == trimmed_end_str(s@, p@),
    decreases s@.len(),
{
    if p.is_empty() {
        return s;
    }
    match strip_suffix(s, p) {
        Some(rest) => trim_end_str(rest, p),
        None => s,
    }
}

/// Whether `p` occurs in `s`.
pub fn contains(s: &str, p: &str) -> (r: bool)
    ensures
        r == has_substring(s@, p@),
{
    let v = chars_of(s);
    let w = chars_of(p);
    if w.len() > v.len() {
        return false;
    }
    let last: usize = v.len() - w.len();
    let mut i: usize = 0;
    while i <= last
        invariant
            v@ == s@,
            w@ == p@,
            last + w.len() == v.len(),
            i <= last + 1,
            forall|j: int| 0 <= j < i ==> !occurs_at(s@, p@, j),
        decreases last + 1 - i,
    {
        if chars_occur_at(&v, &w, i) {
            return true;
        }
        if i == last {
            return false;
        }
        i = i + 1;
    }
    false
}

/// Whether the character `c` occurs in `s`.
pub fn contains_char(s: &str, c: char) -> (r: bool)
    ensures
        r == s@.contains(c),
{
    let v = chars_of(s);
    let mut i: usize = 0;
    while i < v.len()
        invariant
            v@ == s@,
            i <= v.len(),
            forall|j: int| 0 <= j < i ==> s@[j] != c,
        decreases v.len() - i,
    {
        if v[i] == c {
            proof {
                assert(s@[i as int] == c);
            }
            return true;
        }
        i = i + 1;
    }
    false
}

// ---------------------------------------------------------------------------
// Splitting
// ---------------------------------------------------------------------------

/// Where `c` first stands in `s`; the length of `s` where it does not occur.
pub open spec fn first_of(s: Seq<char>, c: char) -> int
    decreases s.len(),
{
    if s.len() == 0 {
        0
    } else if s[0] == c {
        0
    } else {
        1 + first_of(s.drop_first(), c)
    }
}

/// Where whitespace first stands in `s`; the length of `s` where it does not occur.
pub open spec fn first_space(s: Seq<char>) -> int
    decreases s.len(),
{
    if s.len() == 0 {
        0
    } else if char_is_whitespace(s[0]) {
        0
    } else {
        1 + first_space(s.drop_first())
    }
}

/// `first_of` is the only index with `c` at it, or at the end, and without `c` before it.
pub proof fn lemma_first_of(s: Seq<char>, c: char, i: int)
    requires
        0 <= i <= s.len(),
        forall|j: int| 0 <= j < i ==> s[j] != c,
        i == s.len() || s[i] == c,
    ensures
        first_of(s, c) == i,
    decreases s.len(),
{
    if s.len() > 0 && s[0] != c {
        assert forall|j: int| 0 <= j < i - 1 implies s.drop_first()[j] != c by {
            assert(s.drop_first()[j] == s[j + 1]);
        }
        lemma_first_of(s.drop_first(), c, i - 1);
    }
}

/// `first_of` lies within the string, on `c` unless at its end, and no `c` stands before it.
pub proof fn lemma_first_of_bounds(s: Seq<char>, c: char)
    ensures
        0 <= first_of(s, c) <= s.len(),
        first_of(s, c) < s.len() ==> s[first_of(s, c)] == c,
        first_of(s, c) == s.len() <==> !s.contains(c),
        forall|j: int| 0 <= j < first_of(s, c) ==> s[j] != c,
    decreases s.len(),
{
    if s.len() > 0 && s[0] != c {
        let t = s.drop_first();
        lemma_first_of_bounds(t, c);
        assert forall|j: int| 0 <= j < first_of(s, c) implies s[j] != c by {
            if j > 0 {
                assert(t[j - 1] == s[j]);
            }
        }
        if s.contains(c) {
            let k = choose|k: int| 0 <= k < s.len() && s[k] == c;
            assert(t[k - 1] == c);
        }
        if t.contains(c) {
            let k = choose|k: int| 0 <= k < t.len() && t[k] == c;
            assert(s[k + 1] == c);
        }
    } else if s.len() > 0 {
        assert(s[0] == c);
    }
}

proof fn lemma_first_space(s: Seq<char>, i: int)
    requires
        0 <= i <= s.len(),
        forall|j: int| 0 <= j < i ==> !char_is_whitespace(s[j]),
        i == s.len() || char_is_whitespace(s[i]),
    ensures
        first_space(s) == i,
    decreases s.len(),
{
    if s.len() > 0 && !char_is_whitespace(s[0]) {
        assert forall|j: int| 0 <= j < i - 1 implies !char_is_whitespace(
            s.drop_first()[j],
        ) by {
            assert(s.drop_first()[j] == s[j + 1]);
        }
        lemma_first_space(s.drop_first(), i - 1);
    }
}

/// The first index of `c`, or the length.
pub fn find_char(s: &str, c: char) -> (r: usize)
    ensures
        r == first_of(s@, c),
        r <= s@.len(),
{
    let v = chars_of(s);
    let mut i: usize = 0;
    while i < v.len() && v[i] != c
        invariant
            v@ == s@,
            i <= v.len(),
            forall|j: int| 0 <= j < i ==> s@[j] != c,
        decreases v.len() - i,
    {
        i = i + 1;
    }
    proof {
        lemma_first_of(s@, c, i as int);
    }
    i
}

/// `s` cut at the first `c`: what comes before it and what comes after.
pub open spec fn cut_once(s: Seq<char>, c: char) -> Option<(Seq<char>, Seq<char>)> {
    if first_of(s, c) < s.len() {
        Some((s.take(first_of(s, c)), s.skip(first_of(s, c) + 1)))
    } else {
        None
    }
}

/// The view of a pair of optional slices.
pub open spec fn opt_pair_view(p: Option<(&str, &str)>) -> Option<(Seq<char>, Seq<char>)> {
    match p {
        Some((a, b)) => Some((a@, b@)),
        None => None,
    }
}

/// Cuts at the first `c`.
pub fn split_once<'a>(s: &'a str, c: char) -> (r: Option<(&'a str, &'a str)>)
    ensures
        opt_pair_view(r) == cut_once(s@, c),
{
    let n: usize = s.unicode_len();
    let i: usize = find_char(s, c);
    if i < n {
        let a = s.substring_char(0, i);
        let b = s.substring_char(i + 1, n);
        proof {
            assert(a@ =~= s@.take(i as int));
            assert(b@ =~= s@.skip(i + 1));
        }
        Some((a, b))
    } else {
        None
    }
}

/// The first word of `s`: everything before its first whitespace character.
pub open spec fn head_word(s: Seq<char>) -> Seq<char> {
    s.take(first_space(s))
}

/// What follows the first whitespace character of `s`, where there is one.
pub open spec fn tail_words(s: Seq<char>) -> Option<Seq<char>> {
    if first_space(s) < s.len() {
        Some(s.skip(first_space(s) + 1))
    } else {
        None
    }
}

/// Cuts at the first whitespace character.
pub fn split_word<'a>(s: &'a str) -> (r: (&'a str, Option<&'a str>))
    ensures
        r.0@ == head_word(s@),
        opt_str_view(r.1) == tail_words(s@),
{
    let v = chars_of(s);
    let mut i: usize = 0;
    while i < v.len() && !is_whitespace(v[i])
        invariant
            v@ == s@,
            i <= v.len(),
            forall|j: int| 0 <= j < i ==> !char_is_whitespace(s@[j]),
        decreases v.len() - i,
    {
        i = i + 1;
    }
    proof {
        lemma_first_space(s@, i as int);
    }
    let a = s.substring_char(0, i);
    proof {
        assert(a@ =~= s@.take(i as int));
    }
    if i < v.len() {
        let b = s.substring_char(i + 1, v.len());
        proof {
            assert(b@ =~= s@.skip(i + 1));
        }
        (a, Some(b))
    } else {
        (a, None)
    }
}

/// The pieces of `s` between its characters `c`, as many as `c` occurs and one more.
pub open spec fn pieces(s: Seq<char>, c: char) -> Seq<Seq<char>>
    decreases s.len(),
{
    if s.len() == 0 {
        seq![Seq::empty()]
    } else {
        let before = pieces(s.drop_last(), c);
        if s.last() == c {
            before.push(Seq::empty())
        } else {
            before.drop_last().push(before.last().push(s.last()))
        }
    }
}

/// The words of `s`: its maximal runs without whitespace, in order.
pub open spec fn words(s: Seq<char>) -> Seq<Seq<char>>
    decreases s.len(),
{
    if s.len() == 0 {
        Seq::empty()
    } else if char_is_whitespace(s.last()) {
        words(s.drop_last())
    } else if s.len() >= 2 && !char_is_whitespace(s[s.len() - 2]) {
        words(s.drop_last()).drop_last().push(words(s.drop_last()).last().push(s.last()))
    } else {
        words(s.drop_last()).push(seq![s.last()])
    }
}

/// The lines of `s`: its pieces between line feeds, without a last empty one, each without a
/// carriage return at its end.
pub open spec fn text_lines(s: Seq<char>) -> Seq<Seq<char>> {
    let all = pieces(s, '\n');
    let kept = if all.last().len() == 0 {
        all.drop_last()
    } else {
        all
    };
    kept.map_values(|l: Seq<char>| without_cr(l))
}

/// A line without the carriage return at its end.
pub open spec fn without_cr(l: Seq<char>) -> Seq<char> {
    if l.len() > 0 && l.last() == '\r' {
        l.drop_last()
    } else {
        l
    }
}

/// A string has at least one piece.
pub proof fn lemma_pieces_nonempty(s: Seq<char>, c: char)
    ensures
        pieces(s, c).len() > 0,
    decreases s.len(),
{
    if s.len() > 0 {
        lemma_pieces_nonempty(s.drop_last(), c);
    }
}

/// No piece holds the character at which the string was cut.
pub proof fn lemma_pieces_lack(s: Seq<char>, c: char)
    ensures
        forall|i: int| 0 <= i < pieces(s, c).len() ==> !(#[trigger] pieces(s, c)[i]).contains(c),
    decreases s.len(),
{
    if s.len() > 0 {
        let before = pieces(s.drop_last(), c);
        lemma_pieces_lack(s.drop_last(), c);
        lemma_pieces_nonempty(s.drop_last(), c);
        assert forall|i: int| 0 <= i < pieces(s, c).len() implies !(#[trigger] pieces(
            s,
            c,
        )[i]).contains(c) by {
            if s.last() != c && i == before.len() - 1 {
                let piece = before.last().push(s.last());
                if piece.contains(c) {
                    let k = choose|k: int| 0 <= k < piece.len() && piece[k] == c;
                    assert(before[before.len() - 1][k] == c);
                }
            } else if i < before.len() {
                assert(pieces(s, c)[i] == before[i]);
            }
        }
    }
}

/// A string without `c` is one piece.
pub proof fn lemma_one_piece(s: Seq<char>, c: char)
    requires
        !s.contains(c),
    ensures
        pieces(s, c) == seq![s],
    decreases s.len(),
{
    if s.len() > 0 {
        let init = s.drop_last();
        assert(s[s.len() - 1] == s.last());
        if init.contains(c) {
            let k = choose|k: int| 0 <= k < init.len() && init[k] == c;
            assert(s[k] == c);
        }
        lemma_one_piece(init, c);
        assert(init.push(s.last()) =~= s);
        assert(pieces(s, c) =~= seq![s]);
    } else {
        assert(s =~= Seq::empty());
    }
}

/// What follows a `c` leaves the pieces before it as they are.
pub proof fn lemma_pieces_before(s: Seq<char>, t: Seq<char>, c: char)
    requires
        t.len() > 0,
        t[0] == c,
    ensures
        pieces(s + t, c).len() > pieces(s, c).len(),
        pieces(s + t, c).take(pieces(s, c).len() as int) == pieces(s, c),
    decreases t.len(),
{
    let init = t.drop_last();
    let first = pieces(s, c);
    assert((s + t).drop_last() =~= s + init);
    assert((s + t).last() == t.last());
    if init.len() == 0 {
        assert(s + init =~= s);
        assert(pieces(s + t, c).take(first.len() as int) =~= first);
    } else {
        lemma_pieces_before(s, init, c);
        assert(pieces(s + t, c).take(first.len() as int) =~= pieces(s + init, c).take(
            first.len() as int,
        ));
    }
}

/// A string without `c` that follows a `c` is the last piece.
pub proof fn lemma_last_piece(s: Seq<char>, w: Seq<char>, c: char)
    requires
        !w.contains(c),
    ensures
        pieces(s.push(c) + w, c) == pieces(s, c).push(w),
    decreases w.len(),
{
    let all = s.push(c) + w;
    if w.len() == 0 {
        assert(all =~= s.push(c));
        assert(all.drop_last() =~= s);
        assert(w =~= Seq::empty());
    } else {
        let init = w.drop_last();
        assert(w[w.len() - 1] == w.last());
        if init.contains(c) {
            let k = choose|k: int| 0 <= k < init.len() && init[k] == c;
            assert(w[k] == c);
        }
        lemma_last_piece(s, init, c);
        assert(all.drop_last() =~= s.push(c) + init);
        assert(init.push(w.last()) =~= w);
        assert(pieces(all, c) =~= pieces(s, c).push(w));
    }
}

/// Splits at every `c`.
pub fn split_char(s: &str, c: char) -> (r: Vec<String>)
    ensures
        views(r@) == pieces(s@, c),
        r.len() > 0,
{
    let v = chars_of(s);
    let mut done: Vec<String> = Vec::new();
    let mut cur = String::new();
    let mut i: usize = 0;
    proof {
        assert(s@.take(0) =~= Seq::<char>::empty());
        assert(views(done@).push(cur@) =~= seq![Seq::<char>::empty()]);
    }
    while i < v.len()
        invariant
            v@ == s@,
            i <= v.len(),
            views(done@).push(cur@) == pieces(s@.take(i as int), c),
        decreases v.len() - i,
    {
        let ghost before = views(done@).push(cur@);
        let ch = v[i];
        proof {
            assert(s@.take(i + 1).drop_last() =~= s@.take(i as int));
            assert(before.drop_last() =~= views(done@));
        }
        if ch == c {
            let ghost cur_view = cur@;
            let ghost old_done = done@;
            done.push(cur);
            cur = String::new();
            proof {
                assert(views(done@) =~= views(old_done).push(cur_view));
                assert(cur@ =~= Seq::<char>::empty());
            }
        } else {
            cur.push(ch);
        }
        i = i + 1;
    }
    proof {
        assert(s@.take(i as int) =~= s@);
    }
    let ghost last = cur@;
    let ghost old_done = done@;
    done.push(cur);
    proof {
        assert(views(done@) =~= views(old_done).push(last));
    }
    done
}

/// The words of a string.
pub fn split_words(s: &str) -> (r: Vec<String>)
    ensures
        views(r@) == words(s@),
{
    let v = chars_of(s);
    let mut done: Vec<String> = Vec::new();
    let mut cur = String::new();
    let mut i: usize = 0;
    let mut open: bool = false;
    proof {
        assert(s@.take(0) =~= Seq::<char>::empty());
        assert(views(done@) =~= Seq::<Seq<char>>::empty());
    }
    while i < v.len()
        invariant
            v@ == s@,
            i <= v.len(),
            open <==> (i > 0 && !char_is_whitespace(s@[i - 1])),
            open ==> views(done@).push(cur@) == words(s@.take(i as int)),
            !open ==> views(done@) == words(s@.take(i as int)) && cur@.len() == 0,
        decreases v.len() - i,
    {
        let ch = v[i];
        let ghost prefix = s@.take(i as int);
        proof {
            assert(s@.take(i + 1).drop_last() =~= prefix);
            assert(s@.take(i + 1).last() == ch);
        }
        let ghost old_done = done@;
        let ghost cur_view = cur@;
        if is_whitespace(ch) {
            if open {
                done.push(cur);
                cur = String::new();
                proof {
                    assert(views(done@) =~= views(old_done).push(cur_view));
                }
            }
            open = false;
        } else {
            cur.push(ch);
            proof {
                if open {
                    assert(views(old_done).push(cur_view).drop_last() =~= views(old_done));
                } else {
                    assert(cur@ =~= seq![ch]);
                }
            }
            open = true;
        }
        i = i + 1;
    }
    proof {
        assert(s@.take(i as int) =~= s@);
    }
    if open {
        let ghost last = cur@;
        let ghost old_done = done@;
        done.push(cur);
        proof {
            assert(views(done@) =~= views(old_done).push(last));
        }
    }
    done
}

/// The lines of a string.
pub fn lines(s: &str) -> (r: Vec<String>)
    ensures
        views(r@) == text_lines(s@),
{
    let mut all = split_char(s, '\n');
    let ghost whole = views(all@);
    let n: usize = all.len();
    if all[n - 1].as_str().is_empty() {
        let ghost before = all@;
        let _ = all.pop();
        proof {
            assert(views(all@) =~= whole.drop_last());
        }
    }
    let ghost kept = views(all@);
    let mut out: Vec<String> = Vec::new();
    let mut i: usize = 0;
    while i < all.len()
        invariant
            i <= all.len(),
            views(all@) == kept,
            views(out@) == kept.take(i as int).map_values(|l: Seq<char>| without_cr(l)),
        decreases all.len() - i,
    {
        let ghost old_out = out@;
        let line = all[i].as_str();
        proof {
            assert(line@ == kept[i as int]);
        }
        match strip_suffix(line, "\r") {
            Some(t) => {
                proof {
                    reveal_strlit("\r");
                    assert("\r"@ =~= seq!['\r']);
                    assert(line@.last() == line@.subrange(line@.len() - 1, line@.len() as int)[0]);
                    assert(t@ =~= without_cr(kept[i as int]));
                }
                out.push(t.to_owned());
            },
            None => {
                proof {
                    reveal_strlit("\r");
                    assert("\r"@ =~= seq!['\r']);
                    if line@.len() > 0 && line@.last() == '\r' {
                        assert("\r"@ =~= line@.subrange(line@.len() - 1, line@.len() as int));
                    }
                    assert(line@ =~= without_cr(kept[i as int]));
                }
                out.push(line.to_owned());
            },
        }
        proof {
            assert(views(out@) =~= views(old_out).push(without_cr(kept[i as int])));
            assert(kept.take(i + 1).map_values(|l: Seq<char>| without_cr(l)) =~= kept.take(
                i as int,
            ).map_values(|l: Seq<char>| without_cr(l)).push(without_cr(kept[i as int])));
        }
        i = i + 1;
    }
    proof {
        assert(kept.take(i as int) =~= kept);
    }
    out
}

// ---------------------------------------------------------------------------
// Order
// ---------------------------------------------------------------------------

/// The order of strings, character by character; a prefix comes first.
pub open spec fn before(a: Seq<char>, b: Seq<char>) -> bool
    decreases a.len(),
{
    if b.len() == 0 {
        false
    } else if a.len() == 0 {
        true
    } else if a[0] == b[0] {
        before(a.drop_first(), b.drop_first())
    } else {
        a[0] < b[0]
    }
}

/// Strings are in increasing order, with none twice.
pub open spec fn increasing(v: Seq<Seq<char>>) -> bool {
    forall|i: int, j: int| 0 <= i < j < v.len() ==> before(#[trigger] v[i], #[trigger] v[j])
}

/// Of two different strings one comes before the other.
pub proof fn lemma_before_total(a: Seq<char>, b: Seq<char>)
    ensures
        a == b || before(a, b) || before(b, a),
        before(a, b) ==> !before(b, a) && a != b,
    decreases a.len(),
{
    if a.len() == 0 && b.len() == 0 {
        assert(a =~= b);
    } else if a.len() > 0 && b.len() > 0 && a[0] == b[0] {
        lemma_before_total(a.drop_first(), b.drop_first());
        if a.drop_first() == b.drop_first() {
            assert(a =~= seq![a[0]] + a.drop_first());
            assert(b =~= seq![b[0]] + b.drop_first());
        }
    }
}

/// The order of strings is transitive.
pub proof fn lemma_before_transitive(a: Seq<char>, b: Seq<char>, c: Seq<char>)
    requires
        before(a, b),
        before(b, c),
    ensures
        before(a, c),
    decreases a.len(),
{
    if a.len() > 0 && b.len() > 0 && c.len() > 0 && a[0] == b[0] && b[0] == c[0] {
        lemma_before_transitive(a.drop_first(), b.drop_first(), c.drop_first());
    }
}

/// Whether `a` comes before `b`.
pub fn comes_before(a: &str, b: &str) -> (r: bool)
    ensures
        r == before(a@, b@),
{
    let v = chars_of(a);
    let w = chars_of(b);
    let mut i: usize = 0;
    proof {
        assert(a@.skip(0) =~= a@);
        assert(b@.skip(0) =~= b@);
    }
    while i < v.len() && i < w.len() && v[i] == w[i]
        invariant
            v@ == a@,
            w@ == b@,
            i <= v.len(),
            i <= w.len(),
            before(a@, b@) == before(a@.skip(i as int), b@.skip(i as int)),
        decreases v.len() - i,
    {
        proof {
            assert(a@.skip(i as int).drop_first() =~= a@.skip(i + 1));
            assert(b@.skip(i as int).drop_first() =~= b@.skip(i + 1));
        }
        i = i + 1;
    }
    if i == w.len() {
        false
    } else if i == v.len() {
        true
    } else {
        v[i] < w[i]
    }
}

// ---------------------------------------------------------------------------
// Pieces of replies
// ---------------------------------------------------------------------------

/// Entry `i` of a list, or nothing beyond its end.
pub open spec fn entry_at(list: Seq<Seq<char>>, i: int) -> Seq<char> {
    if 0 <= i < list.len() {
        list[i]
    } else {
        ""@
    }
}

/// Entry `i` of a list, or the empty string beyond its end.
pub fn list_get<'a>(list: &'a Vec<String>, i: usize) -> (r: &'a str)
    ensures
        r@ == entry_at(views(list@), i as int),
{
    if i < list.len() {
        list[i].as_str()
    } else {
        ""
    }
}

/// A truth value in words.
pub open spec fn bool_text(b: bool) -> Seq<char> {
    if b {
        "true"@
    } else {
        "false"@
    }
}

/// A truth value in words.
pub fn show_bool(b: bool) -> (r: &'static str)
    ensures
        r@ == bool_text(b),
{
    if b {
        "true"
    } else {
        "false"
    }
}

/// A line with a bullet for each entry.
pub open spec fn bulleted(list: Seq<Seq<char>>) -> Seq<char>
    decreases list.len(),
{
    if list.len() == 0 {
        Seq::empty()
    } else {
        bulleted(list.drop_last()) + ("  • "@ + list.last() + "\n"@)
    }
}

/// A line with a bullet for each entry.
pub fn bullets(list: &Vec<String>) -> (r: String)
    ensures
        r@ == bulleted(views(list@)),
{
    let ghost all = views(list@);
    let mut out = String::new();
    let mut i: usize = 0;
    proof {
        assert(all.take(0) =~= Seq::empty());
    }
    while i < list.len()
        invariant
            i <= list.len(),
            all == views(list@),
            out@ == bulleted(all.take(i as int)),
        decreases list.len() - i,
    {
        out.push_str(cat3("  • ", list[i].as_str(), "\n").as_str());
        proof {
            assert(all.take(i + 1).drop_last() =~= all.take(i as int));
            assert(all.take(i + 1).last() == list@[i as int]@);
        }
        i = i + 1;
    }
    proof {
        assert(all.take(i as int) =~= all);
    }
    out
}

/// Each entry with `head` before it.
pub open spec fn prefixed(list: Seq<Seq<char>>, head: Seq<char>) -> Seq<Seq<char>> {
    list.map_values(|s: Seq<char>| head + s)
}

/// Each entry with `head` before it.
pub fn prefix_all(list: &Vec<String>, head: &str) -> (r: Vec<String>)
    ensures
        views(r@) == prefixed(views(list@), head@),
{
    let mut out: Vec<String> = Vec::new();
    let mut i: usize = 0;
    while i < list.len()
        invariant
            i <= list.len(),
            out.len() == i,
            forall|k: int| 0 <= k < i ==> (#[trigger] out@[k])@ == head@ + list@[k]@,
        decreases list.len() - i,
    {
        out.push(cat2(head, list[i].as_str()));
        i = i + 1;
    }
    proof {
        assert(views(out@) =~= prefixed(views(list@), head@));
    }
    out
}

/// A string as a Rust literal.
pub uninterp spec fn str_quoted(s: Seq<char>) -> Seq<char>;

/// The `Debug` of `str`: the string between quotes, with escapes as in a Rust literal. The result
/// depends on the string alone.
#[verifier::external_body]
pub(crate) fn quote(s: &str) -> (r: String)
    ensures
        r@ == str_quoted(s@),
{
    format!("{:?}", s)
}

/// The entries that are not blank, trimmed.
pub open spec fn nonblank(list: Seq<Seq<char>>) -> Seq<Seq<char>>
    decreases list.len(),
{
    if list.len() == 0 {
        Seq::empty()
    } else if trimmed(list.last()).len() > 0 {
        nonblank(list.drop_last()).push(trimmed(list.last()))
    } else {
        nonblank(list.drop_last())
    }
}

/// The entries that are not blank, trimmed.
pub fn keep_nonblank(list: &Vec<String>) -> (r: Vec<String>)
    ensures
        views(r@) == nonblank(views(list@)),
{
    let ghost all = views(list@);
    let mut out: Vec<String> = Vec::new();
    let mut i: usize = 0;
    proof {
        assert(all.take(0) =~= Seq::empty());
        assert(views(out@) =~= Seq::empty());
    }
    while i < list.len()
        invariant
            i <= list.len(),
            all == views(list@),
            views(out@) == nonblank(all.take(i as int)),
        decreases list.len() - i,
    {
        let ghost before = views(out@);
        proof {
            assert(all.take(i + 1).drop_last() =~= all.take(i as int));
            assert(all.take(i + 1).last() == list@[i as int]@);
        }
        let t = trim(list[i].as_str());
        if !t.is_empty() {
            out.push(t.to_owned());
            proof {
                assert(views(out@) =~= before.push(t@));
            }
        }
        i = i + 1;
    }
    proof {
        assert(all.take(i as int) =~= all);
    }
    out
}

// ---------------------------------------------------------------------------
// Cuts at a character
// ---------------------------------------------------------------------------

/// The first `n` characters of `s`, or all of it where it has no more.
pub open spec fn at_most(s: Seq<char>, n: int) -> Seq<char> {
    if s.len() > n {
        s.take(n)
    } else {
        s
    }
}

/// The first `n` characters of a string, or all of it where it has no more.
pub fn first_chars<'a>(s: &'a str, n: usize) -> (r: &'a str)
    ensures
        r@ == at_most(s@, n as int),
{
    if s.unicode_len() > n {
        s.substring_char(0, n)
    } else {
        s
    }
}

// ---------------------------------------------------------------------------
// Byte lengths and cuts at a byte
// ---------------------------------------------------------------------------

/// The length of a string in UTF-8 bytes.
pub open spec fn byte_len(s: Seq<char>) -> nat {
    vstd::utf8::encode_utf8(s).len()
}

/// Whether byte `n` of a string is the first of a character, or the end.
pub open spec fn at_boundary(s: Seq<char>, n: int) -> bool {
    vstd::utf8::is_char_boundary(vstd::utf8::encode_utf8(s), n)
}

/// The characters in the first `n` bytes of a string.
pub open spec fn first_bytes(s: Seq<char>, n: int) -> Seq<char> {
    vstd::utf8::decode_utf8(vstd::utf8::encode_utf8(s).subrange(0, n))
}

/// The characters from byte `n` of a string on.
pub open spec fn bytes_from(s: Seq<char>, n: int) -> Seq<char> {
    vstd::utf8::decode_utf8(vstd::utf8::encode_utf8(s).subrange(n, vstd::utf8::encode_utf8(s).len() as int))
}

/// The length of a string in bytes.
pub fn len_bytes(s: &str) -> (r: usize)
    ensures
        r == byte_len(s@),
{
    s.as_bytes().len()
}

/// Cuts a string at a byte.
pub fn split_at_byte<'a>(s: &'a str, n: usize) -> (r: (&'a str, &'a str))
    requires
        at_boundary(s@, n as int),
    ensures
        r.0@ == first_bytes(s@, n as int),
        r.1@ == bytes_from(s@, n as int),
{
    let r = s.split_at(n);
    proof {
        vstd::utf8::encode_utf8_decode_utf8(r.0@);
        vstd::utf8::encode_utf8_decode_utf8(r.1@);
    }
    r
}

/// On ASCII strings a cut at a byte is a cut at a character.
pub proof fn lemma_ascii_bytes(s: Seq<char>, n: int)
    requires
        ascii_only(s),
        0 <= n <= s.len(),
    ensures
        byte_len(s) == s.len(),
        at_boundary(s, n),
        first_bytes(s, n) == s.take(n),
        bytes_from(s, n) == s.skip(n),
{
    vstd::utf8::is_ascii_chars_encode_utf8(s);
    vstd::utf8::encode_utf8_valid_utf8(s);
    if n < s.len() {
        vstd::utf8::is_char_boundary_iff_not_is_continuation_byte(vstd::utf8::encode_utf8(s), n);
    } else {
        vstd::utf8::is_char_boundary_start_end_of_seq(vstd::utf8::encode_utf8(s));
    }
    vstd::utf8::is_ascii_chars_encode_utf8(s.take(n));
    vstd::utf8::is_ascii_chars_encode_utf8(s.skip(n));
    assert(vstd::utf8::encode_utf8(s).subrange(0, n) =~= vstd::utf8::encode_utf8(s.take(n)));
    assert(vstd::utf8::encode_utf8(s).subrange(n, s.len() as int) =~= vstd::utf8::encode_utf8(s.skip(n)));
    vstd::utf8::encode_utf8_decode_utf8(s.take(n));
    vstd::utf8::encode_utf8_decode_utf8(s.skip(n));
}

// ---------------------------------------------------------------------------
// Laws
// ---------------------------------------------------------------------------

/// Whether a text has no whitespace.
pub open spec fn unspaced(s: Seq<char>) -> bool {
    forall|i: int| 0 <= i < s.len() ==> !char_is_whitespace(#[trigger] s[i])
}

/// The first word of a text is what stands before the first whitespace, and the rest is all that
/// stands behind that one character.
pub proof fn law_first_word_is_cut(word: Seq<char>, gap: char, rest: Seq<char>)
    requires
        unspaced(word),
        char_is_whitespace(gap),
    ensures
        head_word(word.push(gap) + rest) == word,
        tail_words(word.push(gap) + rest) == Some(rest),
        head_word(word) == word,
        tail_words(word) is None,
{
    let all = word.push(gap) + rest;
    assert forall|j: int| 0 <= j < word.len() implies !char_is_whitespace(all[j]) by {
        assert(all[j] == word[j]);
    }
    lemma_first_space(all, word.len() as int);
    assert(all.take(word.len() as int) =~= word);
    assert(all.skip(word.len() as int + 1) =~= rest);
    lemma_first_space(word, word.len() as int);
    assert(word.take(word.len() as int) =~= word);
}

/// A word is the one word of itself, and behind whitespace it is one word more; whitespace alone
/// adds none.
pub proof fn law_words_are_counted(s: Seq<char>, gap: char, word: Seq<char>)
    requires
        unspaced(word),
        word.len() > 0,
        char_is_whitespace(gap),
    ensures
        words(word) == seq![word],
        words(s.push(gap)) == words(s),
        words(s.push(gap) + word) == words(s).push(word),
    decreases word.len(),
{
    assert(s.push(gap).drop_last() =~= s);
    let all = s.push(gap) + word;
    let init = word.drop_last();
    assert(all.drop_last() =~= s.push(gap) + init);
    assert(all.last() == word.last());
    assert(word[word.len() - 1] == word.last());
    assert(!char_is_whitespace(word.last()));
    if word.len() == 1 {
        assert(s.push(gap) + init =~= s.push(gap));
        assert(all[all.len() - 2] == gap);
        assert(seq![word.last()] =~= word);
        assert(words(init) =~= Seq::empty());
        assert(words(word) =~= seq![word]);
    } else {
        assert forall|i: int| 0 <= i < init.len() implies !char_is_whitespace(#[trigger] init[i]) by {
            assert(init[i] == word[i]);
        }
        law_words_are_counted(s, gap, init);
        assert(all[all.len() - 2] == word[word.len() - 2]);
        assert(init.push(word.last()) =~= word);
        assert(words(s).push(init).drop_last() =~= words(s));
        assert(seq![init].drop_last().push(word) =~= seq![word]);
    }
}

/// Trimming takes whitespace at the ends and leaves none there, and what it leaves is a part of the
/// text.
pub proof fn law_trimmed_has_bare_ends(s: Seq<char>)
    ensures
        trimmed(s).len() > 0 ==> !char_is_whitespace(trimmed(s)[0]) && !char_is_whitespace(
            trimmed(s).last(),
        ),
        trimmed(s).len() <= s.len(),
        trimmed(trimmed(s)) == trimmed(s),
{
    lemma_trimmed_start(s);
    lemma_trimmed_end(trimmed_start(s));
    let t = trimmed(s);
    if t.len() > 0 {
        let none = Seq::<char>::empty();
        assert(none + t + none =~= t);
        lemma_trim_around(none, t, none);
    } else {
        assert(t =~= Seq::empty());
    }
}

proof fn lemma_trimmed_start(s: Seq<char>)
    ensures
        trimmed_start(s).len() > 0 ==> !char_is_whitespace(trimmed_start(s)[0]),
        trimmed_start(s).len() <= s.len(),
    decreases s.len(),
{
    if s.len() > 0 && char_is_whitespace(s[0]) {
        lemma_trimmed_start(s.drop_first());
    }
}

proof fn lemma_trimmed_end(s: Seq<char>)
    ensures
        trimmed_end(s).len() > 0 ==> !char_is_whitespace(trimmed_end(s).last()) && trimmed_end(s)[0]
            == s[0],
        trimmed_end(s).len() <= s.len(),
    decreases s.len(),
{
    if s.len() > 0 && char_is_whitespace(s.last()) {
        lemma_trimmed_end(s.drop_last());
    }
}

/// Trimming takes nothing of what stands between two characters that are no whitespace.
pub proof fn law_trimming_keeps_what_is_bare(s: Seq<char>, p: Seq<char>)
    requires
        has_substring(s, p),
        p.len() > 0,
        !char_is_whitespace(p[0]),
        !char_is_whitespace(p.last()),
    ensures
        has_substring(trimmed(s), p),
{
    lemma_start_keeps(s, p);
    lemma_end_keeps(trimmed_start(s), p);
}

proof fn lemma_start_keeps(s: Seq<char>, p: Seq<char>)
    requires
        has_substring(s, p),
        p.len() > 0,
        !char_is_whitespace(p[0]),
    ensures
        has_substring(trimmed_start(s), p),
    decreases s.len(),
{
    let i = choose|i: int| occurs_at(s, p, i);
    assert(s.subrange(i, i + p.len())[0] == s[i]);
    if char_is_whitespace(s[0]) {
        assert(i > 0);
        let rest = s.drop_first();
        assert(rest.subrange(i - 1, i - 1 + p.len()) =~= s.subrange(i, i + p.len()));
        assert(occurs_at(rest, p, i - 1));
        lemma_start_keeps(rest, p);
    }
}

proof fn lemma_end_keeps(s: Seq<char>, p: Seq<char>)
    requires
        has_substring(s, p),
        p.len() > 0,
        !char_is_whitespace(p.last()),
    ensures
        has_substring(trimmed_end(s), p),
    decreases s.len(),
{
    let i = choose|i: int| occurs_at(s, p, i);
    assert(s.subrange(i, i + p.len())[p.len() - 1] == s[i + p.len() - 1]);
    if char_is_whitespace(s.last()) {
        assert(i + p.len() < s.len());
        let rest = s.drop_last();
        assert(rest.subrange(i, i + p.len()) =~= s.subrange(i, i + p.len()));
        assert(occurs_at(rest, p, i));
        lemma_end_keeps(rest, p);
    }
}

/// Of the entries of a list the blank ones go, and each of the others is kept, trimmed and in its
/// place.
pub proof fn law_blank_entries_go(list: Seq<Seq<char>>, entry: Seq<char>)
    ensures
        nonblank(Seq::empty()) == Seq::<Seq<char>>::empty(),
        trimmed(entry).len() == 0 ==> nonblank(list.push(entry)) == nonblank(list),
        trimmed(entry).len() > 0 ==> nonblank(list.push(entry)) == nonblank(list).push(
            trimmed(entry),
        ),
{
    assert(list.push(entry).drop_last() =~= list);
}

/// A line that follows a line feed is one line more, and a last line feed adds none.
pub proof fn law_lines_are_cut(s: Seq<char>, line: Seq<char>)
    requires
        !line.contains('\n'),
        line.len() > 0,
        line.last() != '\r',
    ensures
        text_lines(line) == seq![line],
        text_lines(s.push('\n') + line) == text_lines(s.push('\n')).push(line),
        text_lines((s.push('\n') + line).push('\n')) == text_lines(s.push('\n') + line),
{
    let all = s.push('\n') + line;
    let none = Seq::<char>::empty();
    lemma_one_piece(line, '\n');
    assert(text_lines(line) =~= seq![line]);
    lemma_last_piece(s, line, '\n');
    assert(!none.contains('\n'));
    lemma_last_piece(s, none, '\n');
    assert(s.push('\n') + none =~= s.push('\n'));
    assert(pieces(s.push('\n'), '\n').drop_last() =~= pieces(s, '\n'));
    assert(text_lines(all) =~= text_lines(s.push('\n')).push(line));
    lemma_last_piece(all, none, '\n');
    assert(all.push('\n') + none =~= all.push('\n'));
    assert(pieces(all.push('\n'), '\n').drop_last() =~= pieces(all, '\n'));
}

proof fn lemma_some_word(t: Seq<char>)
    requires
        t.len() > 0,
        !char_is_whitespace(t.last()),
    ensures
        words(t).len() > 0,
    decreases t.len(),
{
    if t.len() >= 2 && !char_is_whitespace(t[t.len() - 2]) {
        let init = t.drop_last();
        assert(init.last() == t[t.len() - 2]);
        lemma_some_word(init);
    }
}

/// The words of two texts with whitespace between them are those of the one and those of the other.
pub proof fn law_words_add_up(s: Seq<char>, gap: char, t: Seq<char>)
    requires
        char_is_whitespace(gap),
    ensures
        words(s.push(gap) + t) == words(s) + words(t),
    decreases t.len(),
{
    let all = s.push(gap) + t;
    if t.len() == 0 {
        assert(all =~= s.push(gap));
        assert(all.drop_last() =~= s);
        assert(words(s) + words(t) =~= words(s));
    } else {
        let init = t.drop_last();
        assert(all.drop_last() =~= s.push(gap) + init);
        assert(all.last() == t.last());
        law_words_add_up(s, gap, init);
        if !char_is_whitespace(t.last()) {
            if t.len() >= 2 && !char_is_whitespace(t[t.len() - 2]) {
                assert(all[all.len() - 2] == t[t.len() - 2]);
                assert(init.last() == t[t.len() - 2]);
                lemma_some_word(init);
                assert(words(all) =~= words(s) + words(t));
            } else {
                assert(all[all.len() - 2] == if t.len() >= 2 {
                    t[t.len() - 2]
                } else {
                    gap
                });
                assert(words(all) =~= words(s) + words(t));
            }
        }
    }
}

} // verus!
