//! JSON values as plain data.

use vstd::prelude::*;
use crate::{number, text};

verus! {

/// A JSON value. A number is kept as its JSON text; the members of an object are listed in order.
pub enum Json {
    Null,
    Bool(bool),
    Number(String),
    Text(String),
    Array(Vec<Json>),
    Object(Vec<(String, Json)>),
}

/// What a JSON value says.
pub enum JsonView {
    Null,
    Bool(bool),
    Number(Seq<char>),
    Text(Seq<char>),
    Array(Seq<JsonView>),
    Object(Seq<(Seq<char>, JsonView)>),
}

impl View for Json {
    type V = JsonView;

    open spec fn view(&self) -> JsonView
        decreases self,
    {
        match self {
            Json::Null => JsonView::Null,
            Json::Bool(b) => JsonView::Bool(*b),
            Json::Number(n) => JsonView::Number(n@),
            Json::Text(t) => JsonView::Text(t@),
            Json::Array(items) => JsonView::Array(
                Seq::new(
                    items@.len(),
                    |i: int|
                        if 0 <= i < items@.len() {
                            items@[i].view()
                        } else {
                            JsonView::Null
                        },
                ),
            ),
            Json::Object(members) => JsonView::Object(
                Seq::new(
                    members@.len(),
                    |i: int|
                        if 0 <= i < members@.len() {
                            (members@[i].0@, members@[i].1.view())
                        } else {
                            (Seq::<char>::empty(), JsonView::Null)
                        },
                ),
            ),
        }
    }
}

/// The value of the first member named `key` from member `from` on.
pub open spec fn member_from(
    members: Seq<(Seq<char>, JsonView)>,
    key: Seq<char>,
    from: int,
) -> Option<JsonView>
    decreases members.len() - from,
{
    if from < 0 || from >= members.len() {
        None
    } else if members[from].0 == key {
        Some(members[from].1)
    } else {
        member_from(members, key, from + 1)
    }
}

impl JsonView {
    /// The member `key` of an object; nothing of any other value.
    pub open spec fn field(self, key: Seq<char>) -> Option<JsonView> {
        match self {
            JsonView::Object(members) => member_from(members, key, 0),
            _ => None,
        }
    }

    /// The member `key`, or null.
    pub open spec fn at(self, key: Seq<char>) -> JsonView {
        match self.field(key) {
            Some(v) => v,
            None => JsonView::Null,
        }
    }

    /// The string that a value is.
    pub open spec fn text(self) -> Option<Seq<char>> {
        match self {
            JsonView::Text(t) => Some(t),
            _ => None,
        }
    }

    /// The truth value that a value is.
    pub open spec fn boolean(self) -> Option<bool> {
        match self {
            JsonView::Bool(b) => Some(b),
            _ => None,
        }
    }

    /// The elements of an array.
    pub open spec fn items(self) -> Option<Seq<JsonView>> {
        match self {
            JsonView::Array(items) => Some(items),
            _ => None,
        }
    }

    /// The unsigned 64-bit integer that a number is.
    pub open spec fn unsigned(self) -> Option<nat> {
        match self {
            JsonView::Number(n) => number::digits_parsed(n, u64::MAX as nat),
            _ => None,
        }
    }

    /// The signed 64-bit integer that a number is.
    pub open spec fn signed(self) -> Option<int> {
        match self {
            JsonView::Number(n) => number::signed_parsed(n),
            _ => None,
        }
    }

    /// Element `i` of an array, or null.
    pub open spec fn nth(self, i: int) -> JsonView {
        match self {
            JsonView::Array(items) => if 0 <= i < items.len() {
                items[i]
            } else {
                JsonView::Null
            },
            _ => JsonView::Null,
        }
    }

    /// The text of member `key`.
    pub open spec fn text_at(self, key: Seq<char>) -> Option<Seq<char>> {
        self.at(key).text()
    }
}

impl Json {
    /// Member `key` of an object.
    pub fn get(&self, key: &str) -> (r: Option<&Json>)
        ensures
            match r {
                Some(v) => self@.field(key@) == Some(v@),
                None => self@.field(key@) is None,
            },
    {
        match self {
            Json::Object(members) => {
                let mut i: usize = 0;
                let ghost seen = members@.map_values(|m: (String, Json)| (m.0@, m.1@));
                proof {
                    assert(self@->Object_0 =~= seen);
                }
                while i < members.len()
                    invariant
                        i <= members.len(),
                        self@.field(key@) == member_from(seen, key@, 0),
                        seen.len() == members.len(),
                        forall|k: int|
                            0 <= k < seen.len() ==> #[trigger] seen[k] == (
                                members@[k].0@,
                                members@[k].1@,
                            ),
                        member_from(seen, key@, 0) == member_from(seen, key@, i as int),
                    decreases members.len() - i,
                {
                    proof {
                        assert(seen[i as int] == (members@[i as int].0@, members@[i as int].1@));
                    }
                    if text::same(members[i].0.as_str(), key) {
                        return Some(&members[i].1);
                    }
                    i = i + 1;
                }
                None
            },
            _ => None,
        }
    }

    /// The string that this value is.
    pub fn as_str(&self) -> (r: Option<&str>)
        ensures
            text::opt_str_view(r) == self@.text(),
    {
        match self {
            Json::Text(t) => Some(t.as_str()),
            _ => None,
        }
    }

    /// The truth value that this value is.
    pub fn as_bool(&self) -> (r: Option<bool>)
        ensures
            r == self@.boolean(),
    {
        match self {
            Json::Bool(b) => Some(*b),
            _ => None,
        }
    }

    /// The unsigned integer that this value is.
    pub fn as_u64(&self) -> (r: Option<u64>)
        ensures
            match self@.unsigned() {
                Some(n) => r == Some(n as u64) && n <= u64::MAX,
                None => r is None,
            },
    {
        match self {
            Json::Number(n) => {
                if text::starts_with(n.as_str(), "+") {
                    proof {
                        reveal_strlit("+");
                        assert(n@[0] == '+') by {
                            assert("+"@[0] == n@.subrange(0, 1)[0]);
                        }
                        assert(!number::is_digit(n@[0]));
                    }
                    None
                } else {
                    proof {
                        reveal_strlit("+");
                        if n@.len() > 0 && n@[0] == '+' {
                            assert("+"@ =~= n@.subrange(0, 1));
                        }
                    }
                    number::parse_u64(n.as_str())
                }
            },
            _ => None,
        }
    }

    /// The signed integer that this value is.
    pub fn as_i64(&self) -> (r: Option<i64>)
        ensures
            match self@.signed() {
                Some(n) => r == Some(n as i64) && i64::MIN <= n <= i64::MAX,
                None => r is None,
            },
    {
        match self {
            Json::Number(n) => number::parse_i64(n.as_str()),
            _ => None,
        }
    }

    /// The elements of this array.
    pub fn as_array(&self) -> (r: Option<&Vec<Json>>)
        ensures
            match r {
                Some(v) => self@.items() == Some(json_views(v@)),
                None => self@.items() is None,
            },
    {
        match self {
            Json::Array(items) => {
                proof {
                    assert(self@->Array_0 =~= json_views(items@));
                }
                Some(items)
            },
            _ => None,
        }
    }

    /// Element `i` of this array.
    pub fn get_index(&self, i: usize) -> (r: Option<&Json>)
        ensures
            match r {
                Some(v) => self@.nth(i as int) == v@ && self@.items() is Some && i
                    < self@.items()->0.len(),
                None => self@.nth(i as int) == JsonView::Null && !(self@.items() is Some && i
                    < self@.items()->0.len()),
            },
    {
        match self {
            Json::Array(items) => if i < items.len() {
                Some(&items[i])
            } else {
                None
            },
            _ => None,
        }
    }

    /// The text of member `b` of member `a`.
    pub fn str_at2(&self, a: &str, b: &str) -> (r: Option<&str>)
        ensures
            text::opt_str_view(r) == self@.at(a@).text_at(b@),
    {
        match self.get(a) {
            Some(v) => v.str_at(b),
            None => None,
        }
    }

    /// The text of member `c` of member `b` of member `a`.
    pub fn str_at3(&self, a: &str, b: &str, c: &str) -> (r: Option<&str>)
        ensures
            text::opt_str_view(r) == self@.at(a@).at(b@).text_at(c@),
    {
        match self.get(a) {
            Some(v) => v.str_at2(b, c),
            None => None,
        }
    }

    /// The text of member `key`.
    pub fn str_at(&self, key: &str) -> (r: Option<&str>)
        ensures
            text::opt_str_view(r) == self@.text_at(key@),
    {
        match self.get(key) {
            Some(v) => v.as_str(),
            None => None,
        }
    }
}

/// The views of a sequence of JSON values.
pub open spec fn json_views(v: Seq<Json>) -> Seq<JsonView> {
    v.map_values(|j: Json| j@)
}

/// A string as a JSON value.
pub fn string(s: &str) -> (r: Json)
    ensures
        r@ == JsonView::Text(s@),
{
    Json::Text(s.to_owned())
}

/// An unsigned integer as a JSON value.
pub fn integer(n: u64) -> (r: Json)
    ensures
        r@ == JsonView::Number(number::decimal(n as nat)),
{
    Json::Number(number::show(n))
}

/// The array of the strings `s`.
pub open spec fn text_array(s: Seq<Seq<char>>) -> JsonView {
    JsonView::Array(s.map_values(|t: Seq<char>| JsonView::Text(t)))
}

/// Strings as a JSON array.
pub fn texts(v: &Vec<String>) -> (r: Json)
    ensures
        r@ == text_array(text::views(v@)),
{
    let mut items: Vec<Json> = Vec::new();
    let mut i: usize = 0;
    while i < v.len()
        invariant
            i <= v.len(),
            items.len() == i,
            forall|k: int| 0 <= k < i ==> (#[trigger] items@[k])@ == JsonView::Text(v@[k]@),
        decreases v.len() - i,
    {
        items.push(string(v[i].as_str()));
        i = i + 1;
    }
    let r = Json::Array(items);
    proof {
        assert(r@->Array_0 =~= text::views(v@).map_values(|t: Seq<char>| JsonView::Text(t)));
    }
    r
}

/// The array of arrays of strings `rows`.
pub open spec fn table_array(rows: Seq<Seq<Seq<char>>>) -> JsonView {
    JsonView::Array(rows.map_values(|t: Seq<Seq<char>>| text_array(t)))
}

/// The views of a sequence of string lists.
pub open spec fn list_views(v: Seq<Vec<String>>) -> Seq<Seq<Seq<char>>> {
    v.map_values(|t: Vec<String>| text::views(t@))
}

/// Lists of strings as a JSON array of arrays.
pub fn text_table(rows: &Vec<Vec<String>>) -> (r: Json)
    ensures
        r@ == table_array(list_views(rows@)),
{
    let mut items: Vec<Json> = Vec::new();
    let mut i: usize = 0;
    while i < rows.len()
        invariant
            i <= rows.len(),
            items.len() == i,
            forall|k: int|
                0 <= k < i ==> (#[trigger] items@[k])@ == text_array(text::views(rows@[k]@)),
        decreases rows.len() - i,
    {
        items.push(texts(&rows[i]));
        i = i + 1;
    }
    let r = Json::Array(items);
    proof {
        assert(r@->Array_0 =~= list_views(rows@).map_values(|t: Seq<Seq<char>>| text_array(t)));
    }
    r
}

/// The views of the members of an object.
pub open spec fn member_views(v: Seq<(String, Json)>) -> Seq<(Seq<char>, JsonView)> {
    v.map_values(|m: (String, Json)| (m.0@, m.1@))
}

/// Adds a member to those of an object.
pub fn add_member(members: &mut Vec<(String, Json)>, key: &str, value: Json)
    ensures
        member_views(final(members)@) == member_views(old(members)@).push((key@, value@)),
{
    let ghost before = member_views(members@);
    members.push((key.to_owned(), value));
    proof {
        assert(member_views(members@) =~= before.push((key@, value@)));
    }
}

/// The object with the given members.
pub fn object(members: Vec<(String, Json)>) -> (r: Json)
    ensures
        r@ == JsonView::Object(member_views(members@)),
{
    let ghost seen = member_views(members@);
    let r = Json::Object(members);
    proof {
        reveal_with_fuel(<Json as View>::view, 2);
        assert(r@->Object_0 =~= seen);
    }
    r
}

/// The array of the given values.
pub fn array(items: Vec<Json>) -> (r: Json)
    ensures
        r@ == JsonView::Array(json_views(items@)),
{
    let ghost seen = json_views(items@);
    let r = Json::Array(items);
    proof {
        reveal_with_fuel(<Json as View>::view, 2);
        assert(r@->Array_0 =~= seen);
    }
    r
}

/// What a text says as JSON, where it is JSON.
pub uninterp spec fn json_parsed(text: Seq<char>) -> Option<JsonView>;

/// The view of an optional value.
pub open spec fn opt_json(j: Option<Json>) -> Option<JsonView> {
    match j {
        Some(v) => Some(v@),
        None => None,
    }
}

/// A JSON value of the parser, an opaque outside type.
#[verifier::external_type_specification]
#[verifier::external_body]
pub struct ExValue(serde_json::Value);

/// Moves a `serde_json::Value` into plain data, variant by variant; a number becomes its JSON
/// text. Nothing is claimed of the result: the parser's value has no view.
#[verifier::external_body]
fn from_value(v: serde_json::Value) -> Json {
    match v {
        serde_json::Value::Null => Json::Null,
        serde_json::Value::Bool(b) => Json::Bool(b),
        serde_json::Value::Number(n) => Json::Number(n.to_string()),
        serde_json::Value::String(s) => Json::Text(s),
        serde_json::Value::Array(a) => Json::Array(a.into_iter().map(from_value).collect()),
        serde_json::Value::Object(o) => Json::Object(
            o.into_iter().map(|(k, v)| (k, from_value(v))).collect(),
        ),
    }
}

/// `serde_json::from_str` of a `serde_json::Value`: the value that the text is JSON for, or
/// nothing where it is not JSON. The result depends on the text alone.
#[verifier::external_body]
pub(crate) fn parse_json(text: &str) -> (r: Option<Json>)
    ensures
        opt_json(r) == json_parsed(text@),
{
    serde_json::from_str::<serde_json::Value>(text).ok().map(from_value)
}

/// Reads a text as JSON.
pub fn read(text: &str) -> (r: Option<Json>)
    ensures
        opt_json(r) == json_parsed(text@),
{
    parse_json(text)
}

/// Moves plain data into a `serde_json::Value`, variant by variant; a number is read from its JSON
/// text. Nothing is claimed of the result: the outside value has no view.
#[verifier::external_body]
fn to_value(j: &Json) -> serde_json::Value {
    match j {
        Json::Null => serde_json::Value::Null,
        Json::Bool(b) => serde_json::Value::Bool(*b),
        Json::Number(n) => serde_json::from_str(n).unwrap_or(serde_json::Value::Null),
        Json::Text(t) => serde_json::Value::String(t.clone()),
        Json::Array(a) => serde_json::Value::Array(a.iter().map(to_value).collect()),
        Json::Object(o) => serde_json::Value::Object(
            o.iter().map(|(k, v)| (k.clone(), to_value(v))).collect(),
        ),
    }
}

/// A JSON value in one line.
pub uninterp spec fn json_compact(j: JsonView) -> Seq<char>;

/// The `Display` of `serde_json::Value`: the value as JSON without spaces. The result depends on
/// the value alone.
#[verifier::external_body]
pub(crate) fn compact(j: &Json) -> (r: String)
    ensures
        r@ == json_compact(j@),
{
    to_value(j).to_string()
}

/// A JSON value over several lines.
pub uninterp spec fn json_pretty(j: JsonView) -> Seq<char>;

/// `serde_json::to_string_pretty` of a `serde_json::Value`: the value as JSON with line breaks and
/// indentation. The result depends on the value alone.
#[verifier::external_body]
pub(crate) fn pretty(j: &Json) -> (r: String)
    ensures
        r@ == json_pretty(j@),
{
    let v = to_value(j);
    serde_json::to_string_pretty(&v).unwrap_or_else(|_| v.to_string())
}

/// A JSON value as text on one line.
pub fn write(j: &Json) -> (r: String)
    ensures
        r@ == json_compact(j@),
{
    compact(j)
}

} // verus!
