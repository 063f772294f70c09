//! What holds of the settings, the bot's identity and small conversions.

use vstd::prelude::*;
use crate::bot;
use crate::config;
use crate::config::{BotConfig, BotSection};
use crate::json::JsonView;
use crate::{nak, rate_limiter, text};

verus! {

/// A path leads through the members that it names, one after the other.
pub proof fn law_path_leads_through_members(v: JsonView, path: Seq<Seq<char>>, key: Seq<char>)
    ensures
        config::value_at(v, Seq::empty()) == Some(v),
        config::value_at(v, path.push(key)) == match config::value_at(v, path) {
            Some(w) => w.field(key),
            None => None,
        },
    decreases path.len(),
{
    let all = path.push(key);
    if path.len() == 0 {
        assert(all.drop_first() =~= Seq::empty());
        assert(all[0] == key);
        if v.field(key) is Some {
            assert(config::value_at(v.field(key)->0, all.drop_first()) == Some(v.field(key)->0));
        }
    } else {
        assert(all[0] == path[0]);
        assert(all.drop_first() =~= path.drop_first().push(key));
        if v.field(path[0]) is Some {
            law_path_leads_through_members(v.field(path[0])->0, path.drop_first(), key);
        }
    }
}

/// A key of the settings without a dot names a member, and one with a dot a member of a member.
pub proof fn law_custom_settings_are_found(config: BotConfig, a: Seq<char>, b: Seq<char>)
    requires
        config.custom is Some,
        !a.contains('.'),
        !b.contains('.'),
    ensures
        config.custom_value(a) == config.custom->0@.field(a),
        config.custom_value(a.push('.') + b) == match config.custom->0@.field(a) {
            Some(w) => w.field(b),
            None => None,
        },
{
    let v = config.custom->0@;
    let none = Seq::<Seq<char>>::empty();
    text::lemma_one_piece(a, '.');
    text::lemma_last_piece(a, b, '.');
    law_path_leads_through_members(v, none, a);
    law_path_leads_through_members(v, none.push(a), b);
    assert(none.push(a) =~= seq![a]);
}

/// The key of the settings comes before that of the environment; an empty one, `auto` and none at all
/// leave the choice to the environment.
pub proof fn law_own_key_comes_first(config: BotConfig, env: Option<Seq<char>>)
    ensures
        ({
            let own = text::opt_view(config.bot.nsec);
            &&& own is Some && own->0.len() > 0 && own->0 != "auto"@ ==> config.nsec_spec(env) == own
            &&& own is None || own->0.len() == 0 || own->0 == "auto"@ ==> (config.nsec_spec(env)
                is Some <==> env is Some && env->0.len() > 0)
            &&& own is None && env is Some && env->0.len() > 0 ==> config.nsec_spec(env) == env
        }),
{
}

/// A saved key is one where it reads as one, and nothing else is.
pub proof fn law_saved_key_reads_as_one(key: Seq<char>, other: Seq<char>)
    requires
        key.len() >= 5,
        key.take(5) == "nsec1"@,
        text::unspaced(key),
        other.len() == 0 || other[0] != 'n',
        text::trimmed(other) == other,
    ensures
        bot::saved_key(Some(key)) == Some(key),
        bot::saved_key(Some(key.push('\n'))) == Some(key),
        bot::saved_key(Some(other)) is None,
        bot::saved_key(None) is None,
{
    reveal_strlit("nsec1");
    let none = Seq::<char>::empty();
    assert(key.take(5) =~= key.subrange(0, 5));
    assert(none + key + none =~= key);
    assert(none + key + seq!['\n'] =~= key.push('\n'));
    assert(key[key.len() - 1] == key.last());
    text::lemma_trim_around(none, key, none);
    text::lemma_trim_around(none, key, seq!['\n']);
    if "nsec1"@.is_prefix_of(other) {
        assert(other.subrange(0, 5)[0] == 'n');
    }
}

/// A form is taken from what the tool printed where it has the prefix that was asked for.
pub proof fn law_printed_form_has_the_prefix(prefix: Seq<char>, rest: Seq<char>)
    requires
        prefix.len() > 0,
        text::unspaced(prefix),
        text::unspaced(rest),
    ensures
        nak::printed_form((prefix + rest).push('\n'), prefix) == Some(prefix + rest),
        forall|output: Seq<char>| #[trigger]
            nak::printed_form(output, prefix) is Some ==> prefix.is_prefix_of(text::trimmed(output)),
{
    let none = Seq::<char>::empty();
    let s = prefix + rest;
    assert(none + s + seq!['\n'] =~= s.push('\n'));
    assert(s[0] == prefix[0]);
    if rest.len() > 0 {
        assert(s.last() == rest[rest.len() - 1]);
    } else {
        assert(s.last() == prefix[prefix.len() - 1]);
    }
    text::lemma_trim_around(none, s, seq!['\n']);
    assert(s.subrange(0, prefix.len() as int) =~= prefix);
}

/// A profile is published where any part of it is set; what is not set is left empty, but for a
/// default name.
pub proof fn law_profile_is_published_where_set(b: BotSection)
    ensures
        bot::profile_of(b) is Some <==> b.display_name is Some || b.picture is Some || b.banner is Some
            || b.about is Some || b.lud16 is Some,
        bot::profile_of(b) matches Some(p) ==> (b.display_name matches Some(n) ==> p.name == n@),
        bot::profile_of(b) matches Some(p) ==> (b.display_name is None ==> p.name == "Flagship"@),
        bot::profile_of(b) matches Some(p) ==> (b.picture matches Some(n) ==> p.picture == n@),
        bot::profile_of(b) matches Some(p) ==> (b.banner matches Some(n) ==> p.banner == n@),
        bot::profile_of(b) matches Some(p) ==> (b.about matches Some(n) ==> p.about == n@),
        bot::profile_of(b) matches Some(p) ==> (b.lud16 matches Some(n) ==> p.lud16 == n@),
        bot::profile_of(b) matches Some(p) ==> (b.lud16 is None ==> p.lud16 == ""@),
{
}

/// A wait is told in whole seconds, and never as none.
pub proof fn law_wait_is_told_in_seconds(s: nat, rest: nat)
    requires
        rest < 1_000_000_000,
    ensures
        s >= 1 ==> rate_limiter::wait_secs((s * 1_000_000_000 + rest) as int) == s,
        s == 0 ==> rate_limiter::wait_secs(rest as int) == 1,
{
}

/// A string in capitals and in small letters differs from itself in nothing but case, and in small
/// letters it holds no capital.
pub proof fn law_case_changes_letters_alone(s: Seq<char>, i: int)
    requires
        text::ascii_only(s),
        0 <= i < s.len(),
    ensures
        text::str_lowercase(s).len() == s.len(),
        text::str_uppercase(s).len() == s.len(),
        'A' <= s[i] <= 'Z' ==> text::str_lowercase(s)[i] as int == s[i] as int + 32,
        !('A' <= s[i] <= 'Z') ==> text::str_lowercase(s)[i] == s[i],
        'a' <= s[i] <= 'z' ==> text::str_uppercase(s)[i] as int == s[i] as int - 32,
        !('a' <= s[i] <= 'z') ==> text::str_uppercase(s)[i] == s[i],
{
}

/// Strings are ordered by the first character in which they differ, and one comes before every string
/// that it starts.
pub proof fn law_order_is_by_the_first_difference(
    p: Seq<char>,
    x: char,
    y: char,
    a: Seq<char>,
    b: Seq<char>,
)
    requires
        x < y,
    ensures
        text::before(p + seq![x] + a, p + seq![y] + b),
        !text::before(p + seq![y] + b, p + seq![x] + a),
        text::before(p, p + seq![x] + a),
        !text::before(p, p),
    decreases p.len(),
{
    let (s, t) = (p + seq![x] + a, p + seq![y] + b);
    if p.len() == 0 {
        assert(s[0] == x && t[0] == y);
    } else {
        let q = p.drop_first();
        assert(s[0] == p[0] && t[0] == p[0]);
        assert(s.drop_first() =~= q + seq![x] + a);
        assert(t.drop_first() =~= q + seq![y] + b);
        law_order_is_by_the_first_difference(q, x, y, a, b);
    }
}

} // verus!
