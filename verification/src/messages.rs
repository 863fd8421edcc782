//! The frames a client sends, as text, and the protocol versions it speaks.

use vstd::prelude::*;
use vstd::string::*;
use crate::json::{json_text, Json};
use crate::quoting::{append_quoted, quoted};
use crate::text::same_text;

verus! {

/// The protocol versions this client speaks, most preferred first.
pub open spec fn versions() -> Seq<Seq<char>> {
    seq!["1"@, "pre2"@, "pre1"@]
}

/// How many protocol versions this client speaks.
pub const VERSION_COUNT: usize = 3;

/// The name of the version at `index` in the order of preference.
pub fn version_at(index: usize) -> (name: &'static str)
    requires
        index < VERSION_COUNT,
    ensures
        name@ == versions()[index as int],
{
    if index == 0 {
        "1"
    } else if index == 1 {
        "pre2"
    } else {
        "pre1"
    }
}

/// The place of `name` in the order of preference, `None` for a version this
/// client does not speak.
pub open spec fn version_index(name: Seq<char>) -> Option<int> {
    if name == versions()[0] {
        Some(0)
    } else if name == versions()[1] {
        Some(1)
    } else if name == versions()[2] {
        Some(2)
    } else {
        None
    }
}

/// Finds `name` among the versions this client speaks.
pub fn find_version(name: &str) -> (found: Option<usize>)
    ensures
        found is Some <==> version_index(name@) is Some,
        found is Some ==> found->0 == version_index(name@)->0,
        found is Some ==> found->0 < VERSION_COUNT && versions()[found->0 as int] == name@,
        found is None ==> !versions().contains(name@),
{
    let mut i: usize = 0;
    while i < VERSION_COUNT
        invariant
            i <= VERSION_COUNT,
            forall|k: int| 0 <= k < i ==> versions()[k] != name@,
        decreases VERSION_COUNT - i,
    {
        if same_text(version_at(i), name) {
            return Some(i);
        }
        i = i + 1;
    }
    None
}

/// The items' compact texts with a comma between neighbours.
pub open spec fn joined(items: Seq<Json>) -> Seq<char>
    decreases items.len(),
{
    if items.len() == 0 {
        Seq::empty()
    } else if items.len() == 1 {
        json_text(items[0])
    } else {
        joined(items.drop_last()) + ","@ + json_text(items.last())
    }
}

/// The items as one JSON array in compact form.
pub open spec fn minified(items: Seq<Json>) -> Seq<char> {
    "["@ + joined(items) + "]"@
}

/// The end of a `method` or `sub` frame: the parameters, where there are
/// any, and the closing brace. Without parameters the key is left out.
pub open spec fn params_tail(params: Option<Seq<Json>>) -> Seq<char> {
    match params {
        Some(items) => ",\"params\":"@ + minified(items) + "}"@,
        None => "}"@,
    }
}

/// The `pong` frame that answers a ping with the given id. The id is
/// written as a JSON string.
pub open spec fn pong_text(id: Option<Seq<char>>) -> Seq<char> {
    match id {
        Some(id) => "{\"msg\":\"pong\",\"id\":"@ + quoted(id) + "}"@,
        None => "{\"msg\":\"pong\"}"@,
    }
}

/// The `method` frame of a call. The id and the method's name are written
/// as JSON strings.
pub open spec fn method_text(id: Seq<char>, method: Seq<char>, params: Option<Seq<Json>>) -> Seq<
    char,
> {
    "{\"msg\":\"method\",\"id\":"@ + quoted(id) + ",\"method\":"@ + quoted(method) + params_tail(
        params,
    )
}

/// The `sub` frame of a subscription. The id and the publication's name
/// are written as JSON strings.
pub open spec fn subscribe_text(id: Seq<char>, name: Seq<char>, params: Option<Seq<Json>>) -> Seq<
    char,
> {
    "{\"msg\":\"sub\",\"id\":"@ + quoted(id) + ",\"name\":"@ + quoted(name) + params_tail(params)
}

/// The `unsub` frame that ends a subscription. The id is written as a
/// JSON string.
pub open spec fn unsubscribe_text(id: Seq<char>) -> Seq<char> {
    "{\"msg\":\"unsub\",\"id\":"@ + quoted(id) + "}"@
}

/// The `connect` frame that proposes `version`. The version is written as
/// a JSON string.
pub open spec fn connect_text(version: Seq<char>) -> Seq<char> {
    "{\"msg\":\"connect\",\"version\":"@ + quoted(version)
        + ",\"support\":[\"1\",\"pre2\",\"pre1\"]}"@
}

/// The values that a list of borrowed parameters refers to.
pub open spec fn payloads(items: Seq<&Json>) -> Seq<Json> {
    items.map_values(|item: &Json| *item)
}

/// The view of optional parameters.
pub open spec fn params_view(params: Option<&Vec<&Json>>) -> Option<Seq<Json>> {
    match params {
        Some(items) => Some(payloads(items@)),
        None => None,
    }
}

/// The view of an optional string.
pub open spec fn text_view(text: Option<&str>) -> Option<Seq<char>> {
    match text {
        Some(t) => Some(t@),
        None => None,
    }
}

/// A list of parameters on its way into a frame.
pub struct Minify<'a>(pub &'a Vec<&'a Json>);

impl<'a> Minify<'a> {
    /// The parameters as one JSON array in compact form.
    pub fn text(&self) -> (s: String)
        ensures
            s@ == minified(payloads(self.0@)),
    {
        let items = self.0;
        let mut s = String::from_str("[");
        let mut i: usize = 0;
        while i < items.len()
            invariant
                i <= items.len(),
                s@ == "["@ + joined(payloads(items@).take(i as int)),
            decreases items.len() - i,
        {
            let item = items[i].text();
            proof {
                let before = payloads(items@).take(i as int);
                let after = payloads(items@).take(i + 1);
                assert(after.drop_last() =~= before);
                assert(after.last() == *items@[i as int]);
                if i > 0 {
                    assert("["@ + joined(after) =~= "["@ + joined(before) + ","@ + item@);
                } else {
                    assert(joined(before) =~= Seq::<char>::empty());
                    assert("["@ + joined(after) =~= "["@ + joined(before) + item@);
                }
            }
            if i > 0 {
                s.append(",");
            }
            s.append(item.as_str());
            i = i + 1;
        }
        proof {
            assert(payloads(items@).take(i as int) =~= payloads(items@));
        }
        s.append("]");
        s
    }
}

/// Appends the end of a `method` or `sub` frame to what has been written.
fn close_frame(s: &mut String, params: Option<&Vec<&Json>>)
    ensures
        final(s)@ == old(s)@ + params_tail(params_view(params)),
{
    match params {
        Some(args) => {
            let list = Minify(args).text();
            s.append(",\"params\":");
            s.append(list.as_str());
            s.append("}");
            proof {
                assert(s@ =~= old(s)@ + params_tail(params_view(params)));
            }
        },
        None => {
            s.append("}");
        },
    }
}

/// The answer to a ping.
pub struct Pong;

impl Pong {
    /// The `pong` frame: it carries the ping's id when the ping had one, and
    /// no id otherwise.
    pub fn text<'l>(id: Option<&'l str>) -> (s: String)
        ensures
            s@ == pong_text(text_view(id)),
    {
        match id {
            Some(id) => {
                let mut s = String::from_str("{\"msg\":\"pong\",\"id\":");
                append_quoted(&mut s, id);
                s.append("}");
                s
            },
            None => String::from_str("{\"msg\":\"pong\"}"),
        }
    }
}

/// A remote method call.
pub struct Method;

impl Method {
    /// The `method` frame of the call `id` to `method`.
    pub fn text<'l>(id: &'l str, method: &'l str, params: Option<&Vec<&Json>>) -> (s: String)
        ensures
            s@ == method_text(id@, method@, params_view(params)),
    {
        let mut s = String::from_str("{\"msg\":\"method\",\"id\":");
        append_quoted(&mut s, id);
        s.append(",\"method\":");
        append_quoted(&mut s, method);
        close_frame(&mut s, params);
        s
    }
}

/// A request to subscribe.
pub struct Subscribe;

impl Subscribe {
    /// The `sub` frame of the subscription `id` to the publication `name`.
    pub fn text<'l>(id: &'l str, name: &'l str, params: Option<&Vec<&Json>>) -> (s: String)
        ensures
            s@ == subscribe_text(id@, name@, params_view(params)),
    {
        let mut s = String::from_str("{\"msg\":\"sub\",\"id\":");
        append_quoted(&mut s, id);
        s.append(",\"name\":");
        append_quoted(&mut s, name);
        close_frame(&mut s, params);
        s
    }
}

/// A request to end a subscription.
pub struct Unsubscribe;

impl Unsubscribe {
    /// The `unsub` frame for the subscription `id`.
    pub fn text<'l>(id: &'l str) -> (s: String)
        ensures
            s@ == unsubscribe_text(id@),
    {
        let mut s = String::from_str("{\"msg\":\"unsub\",\"id\":");
        append_quoted(&mut s, id);
        s.append("}");
        s
    }
}

/// The opening request of a session: the version the client proposes and
/// all the versions it speaks.
pub struct Connect {
    pub msg: &'static str,
    pub version: &'static str,
    pub support: [&'static str; 3],
}

impl Connect {
    /// The fields hold a `connect` request that lists the versions in their
    /// order of preference.
    pub open spec fn wf(self) -> bool {
        &&& self.msg@ == "connect"@
        &&& forall|i: int| 0 <= i < 3 ==> (#[trigger] self.support@[i])@ == versions()[i]
    }

    /// A request that proposes `version`.
    pub fn new(version: &'static str) -> (request: Connect)
        ensures
            request.wf(),
            request.version@ == version@,
    {
        Connect { msg: "connect", version: version, support: ["1", "pre2", "pre1"] }
    }

    /// The `connect` frame.
    pub fn to_json(&self) -> (s: String)
        requires
            self.wf(),
        ensures
            s@ == connect_text(self.version@),
    {
        let mut s = String::from_str("{\"msg\":\"");
        s.append(self.msg);
        s.append("\",\"version\":");
        append_quoted(&mut s, self.version);
        s.append(",\"support\":[\"");
        s.append(self.support[0]);
        s.append("\",\"");
        s.append(self.support[1]);
        s.append("\",\"");
        s.append(self.support[2]);
        s.append("\"]}");
        proof {
            reveal_strlit("{\"msg\":\"");
            reveal_strlit("connect");
            reveal_strlit("\",\"version\":");
            reveal_strlit(",\"support\":[\"");
            reveal_strlit("1");
            reveal_strlit("pre2");
            reveal_strlit("pre1");
            reveal_strlit("\",\"");
            reveal_strlit("\"]}");
            reveal_strlit("{\"msg\":\"connect\",\"version\":");
            reveal_strlit(",\"support\":[\"1\",\"pre2\",\"pre1\"]}");
            assert(s@ =~= connect_text(self.version@));
        }
        s
    }
}

} // verus!
