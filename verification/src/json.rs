//! JSON values as the engine sees them: a tree it can search one level deep,
//! read from text and write back as text.

use vstd::prelude::*;
use crate::text::same_text;

verus! {

/// `serde_json::Number`, a JSON number as the parser read it. It is carried
/// and never looked into.
#[verifier::external_type_specification]
#[verifier::external_body]
pub struct ExNumber(serde_json::Number);

/// `serde_json::Value`, the parser's own tree. It only passes between the
/// parser and the conversions below.
#[verifier::external_type_specification]
#[verifier::external_body]
pub struct ExValue(serde_json::Value);

/// A JSON value. The engine never looks inside a number: it carries it from
/// the text it came in to the text it goes out with.
#[derive(Debug, PartialEq)]
pub enum Json {
    Null,
    Bool(bool),
    Number(serde_json::Number),
    Text(String),
    Array(Vec<Json>),
    Object(Vec<(String, Json)>),
}

/// An extended-JSON payload. The engine hands payloads on without reading
/// them.
pub type Ejson = Json;

/// The tree that `text` denotes, `None` when `text` is not JSON.
pub uninterp spec fn json_parse(text: Seq<char>) -> Option<Json>;

/// The compact text of `value`, without any white space between tokens.
pub uninterp spec fn json_text(value: Json) -> Seq<char>;

/// The value under `key` among `members`. Where a key occurs more than once
/// the last occurrence counts.
pub open spec fn find_member(members: Seq<(String, Json)>, key: Seq<char>) -> Option<Json>
    decreases members.len(),
{
    if members.len() == 0 {
        None
    } else if members.last().0@ == key {
        Some(members.last().1)
    } else {
        find_member(members.drop_last(), key)
    }
}

/// Members beyond the last one under `key` do not change what is found.
proof fn lemma_find_member_prefix(members: Seq<(String, Json)>, key: Seq<char>, n: int)
    requires
        0 <= n <= members.len(),
        forall|i: int| n <= i < members.len() ==> (#[trigger] members[i]).0@ != key,
    ensures
        find_member(members, key) == find_member(members.take(n), key),
    decreases members.len() - n,
{
    if n == members.len() {
        assert(members.take(n) =~= members);
    } else {
        assert(members.last() == members[members.len() - 1]);
        assert(members.drop_last().take(n) =~= members.take(n));
        lemma_find_member_prefix(members.drop_last(), key, n);
    }
}

/// `serde_json::Value` to `Json`, variant for variant and member for member,
/// in the order in which the value walks its members. Nothing is claimed of
/// the result here; `decode` names the composition.
#[verifier::external_body]
fn from_value(v: &serde_json::Value) -> Json {
    match v {
        serde_json::Value::Null => Json::Null,
        serde_json::Value::Bool(b) => Json::Bool(*b),
        serde_json::Value::Number(n) => Json::Number(n.clone()),
        serde_json::Value::String(s) => Json::Text(s.clone()),
        serde_json::Value::Array(a) => Json::Array(a.iter().map(from_value).collect()),
        serde_json::Value::Object(o) => Json::Object(
            o.iter().map(|(k, v)| (k.clone(), from_value(v))).collect(),
        ),
    }
}

/// `Json` to `serde_json::Value`, variant for variant and member for member.
/// Nothing is claimed of the result here; `encode` names the composition.
#[verifier::external_body]
fn to_value(j: &Json) -> serde_json::Value {
    match j {
        Json::Null => serde_json::Value::Null,
        Json::Bool(b) => serde_json::Value::Bool(*b),
        Json::Number(n) => serde_json::Value::Number(n.clone()),
        Json::Text(s) => serde_json::Value::String(s.clone()),
        Json::Array(a) => serde_json::Value::Array(a.iter().map(to_value).collect()),
        Json::Object(o) => serde_json::Value::Object(
            o.iter().map(|(k, v)| (k.clone(), to_value(v))).collect(),
        ),
    }
}

/// `serde_json::from_str` at `serde_json::Value`: the value that the text
/// denotes, or nothing when the text is not one JSON value. The result
/// depends on the text alone, so it has a name.
#[verifier::external_body]
fn decode(text: &str) -> (r: Option<Json>)
    ensures
        r == json_parse(text@),
{
    match serde_json::from_str::<serde_json::Value>(text) {
        Ok(v) => Some(from_value(&v)),
        Err(_) => None,
    }
}

/// `serde_json::Value`'s `Display`: the value as compact JSON text. The
/// result depends on the value alone, so it has a name.
#[verifier::external_body]
fn encode(j: &Json) -> (s: String)
    ensures
        s@ == json_text(*j),
{
    to_value(j).to_string()
}

impl Json {
    /// The member of an object under `key`; `None` for anything but an
    /// object, and for an object without that key.
    pub open spec fn member(self, key: Seq<char>) -> Option<Json> {
        match self {
            Json::Object(members) => find_member(members@, key),
            _ => None,
        }
    }

    /// The characters of a JSON string; `None` for anything else.
    pub open spec fn string(self) -> Option<Seq<char>> {
        match self {
            Json::Text(s) => Some(s@),
            _ => None,
        }
    }

    /// The items of a JSON array; `None` for anything else.
    pub open spec fn items(self) -> Option<Seq<Json>> {
        match self {
            Json::Array(items) => Some(items@),
            _ => None,
        }
    }

    /// The string under `key`: `None` when there is no such member or it is
    /// not a string.
    pub open spec fn string_at(self, key: Seq<char>) -> Option<Seq<char>> {
        match self.member(key) {
            Some(v) => v.string(),
            None => None,
        }
    }

    /// Reads one JSON value from `text`.
    pub fn parse(text: &str) -> (r: Option<Json>)
        ensures
            r == json_parse(text@),
    {
        decode(text)
    }

    /// Writes the value as compact JSON text.
    pub fn text(&self) -> (s: String)
        ensures
            s@ == json_text(*self),
    {
        encode(self)
    }

    /// Looks up a member of an object.
    pub fn get<'a>(&'a self, key: &str) -> (r: Option<&'a Json>)
        ensures
            r == match self.member(key@) {
                Some(v) => Some(&v),
                None => None,
            },
    {
        match self {
            Json::Object(members) => {
                let mut i: usize = members.len();
                while i > 0
                    invariant
                        i <= members.len(),
                        *self == Json::Object(*members),
                        forall|k: int| i <= k < members.len() ==> (#[trigger] members@[k]).0@ != key@,
                    decreases i,
                {
                    i = i - 1;
                    if same_text(members[i].0.as_str(), key) {
                        proof {
                            let upto = members@.take(i + 1);
                            lemma_find_member_prefix(members@, key@, i + 1);
                            assert(upto.last() == members@[i as int]);
                        }
                        return Some(&members[i].1);
                    }
                }
                proof {
                    lemma_find_member_prefix(members@, key@, 0);
                }
                None
            },
            _ => None,
        }
    }

    /// Takes a member out of an object, which is given up for it.
    pub fn into_member(self, key: &str) -> (r: Option<Json>)
        ensures
            r == self.member(key@),
    {
        match self {
            Json::Object(members) => {
                let mut members = members;
                let ghost all = members@;
                let mut i: usize = members.len();
                while i > 0
                    invariant
                        i <= members.len(),
                        members@ == all,
                        self.member(key@) == find_member(all, key@),
                        forall|k: int| i <= k < all.len() ==> (#[trigger] all[k]).0@ != key@,
                    decreases i,
                {
                    i = i - 1;
                    if same_text(members[i].0.as_str(), key) {
                        proof {
                            lemma_find_member_prefix(all, key@, i + 1);
                            assert(all.take(i + 1).last() == all[i as int]);
                        }
                        let entry = members.remove(i);
                        return Some(entry.1);
                    }
                }
                proof {
                    lemma_find_member_prefix(all, key@, 0);
                }
                None
            },
            _ => None,
        }
    }

    /// The characters of a JSON string.
    pub fn as_str<'a>(&'a self) -> (r: Option<&'a str>)
        ensures
            r is Some == self.string() is Some,
            r is Some ==> r->0@ == self.string()->0,
    {
        match self {
            Json::Text(s) => Some(s.as_str()),
            _ => None,
        }
    }

    /// The items of a JSON array.
    pub fn as_array<'a>(&'a self) -> (r: Option<&'a Vec<Json>>)
        ensures
            r is Some == self.items() is Some,
            r is Some ==> r->0@ == self.items()->0,
    {
        match self {
            Json::Array(items) => Some(items),
            _ => None,
        }
    }

    /// The string under `key`.
    pub fn str_at<'a>(&'a self, key: &str) -> (r: Option<&'a str>)
        ensures
            r is Some == self.string_at(key@) is Some,
            r is Some ==> r->0@ == self.string_at(key@)->0,
    {
        match self.get(key) {
            Some(v) => v.as_str(),
            None => None,
        }
    }
}

} // verus!
