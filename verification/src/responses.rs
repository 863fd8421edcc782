//! The frames a server sends, read into records of their own.

use vstd::prelude::*;
use vstd::string::*;
use crate::json::{json_parse, Json};
use crate::text::same_text;

verus! {

/// What an optional string member holds: `Some(None)` where the member is
/// missing or null, `Some(Some(..))` where it is a string, and `None` where
/// it is anything else.
pub open spec fn optional_string(message: Json, key: Seq<char>) -> Option<Option<Seq<char>>> {
    match message.member(key) {
        None => Some(None),
        Some(Json::Null) => Some(None),
        Some(Json::Text(s)) => Some(Some(s@)),
        Some(_) => None,
    }
}

/// Whether `message` is an object whose `msg` is the string `kind`.
pub open spec fn is_kind(message: Json, kind: Seq<char>) -> bool {
    message.string_at("msg"@) == Some(kind)
}

/// The view of an optional owned string.
pub open spec fn owned_view(text: Option<String>) -> Option<Seq<char>> {
    match text {
        Some(t) => Some(t@),
        None => None,
    }
}

/// The server's word that a session stands.
#[derive(Debug, PartialEq, Eq)]
pub struct Connected {
    pub msg: String,
    pub session: String,
}

/// The server's refusal of a protocol version.
#[derive(Debug, PartialEq, Eq)]
pub struct Failed {
    pub msg: String,
    pub version: String,
}

/// The server's word that a session stands, under its name during the
/// negotiation of a version.
pub type VersionSuccess = Connected;

/// The server's refusal of a protocol version, under its name during the
/// negotiation of a version.
pub type VersionFailed = Failed;

/// The server's request for a sign of life.
#[derive(Debug, PartialEq, Eq)]
pub struct Ping {
    pub msg: String,
    pub id: Option<String>,
}

/// The server's answer to a method call that succeeded.
#[derive(Debug, PartialEq)]
pub struct MethodResult {
    pub msg: String,
    pub id: String,
    pub result: Json,
}

/// A record that can be read from a frame.
pub trait FromResponse: Sized {
    /// Whether `message` is a frame of this kind with all that the record
    /// needs.
    spec fn decodable(message: Json) -> bool;

    /// Whether the record holds what `message` says.
    spec fn decoded_from(&self, message: Json) -> bool;

    /// Reads the record from a frame's text: `None` where the text is not
    /// JSON, or not a frame of this kind, or lacks what the record needs.
    fn from_response(response: &str) -> (r: Option<Self>)
        ensures
            r is Some <==> json_parse(response@) is Some && Self::decodable(
                json_parse(response@)->0,
            ),
            r is Some ==> r->0.decoded_from(json_parse(response@)->0),
    ;
}

impl Connected {
    /// Reads the record from a parsed frame.
    pub fn from_json(message: &Json) -> (r: Option<Connected>)
        ensures
            r is Some <==> Self::decodable(*message),
            r is Some ==> r->0.decoded_from(*message),
    {
        match (message.str_at("msg"), message.str_at("session")) {
            (Some(msg), Some(session)) => {
                if same_text(msg, "connected") {
                    Some(
                        Connected {
                            msg: String::from_str(msg),
                            session: String::from_str(session),
                        },
                    )
                } else {
                    None
                }
            },
            _ => None,
        }
    }
}

impl FromResponse for Connected {
    open spec fn decodable(message: Json) -> bool {
        is_kind(message, "connected"@) && message.string_at("session"@) is Some
    }

    open spec fn decoded_from(&self, message: Json) -> bool {
        self.msg@ == "connected"@ && Some(self.session@) == message.string_at("session"@)
    }

    fn from_response(response: &str) -> (r: Option<Self>) {
        match Json::parse(response) {
            Some(message) => Connected::from_json(&message),
            None => None,
        }
    }
}

impl Failed {
    /// Reads the record from a parsed frame.
    pub fn from_json(message: &Json) -> (r: Option<Failed>)
        ensures
            r is Some <==> Self::decodable(*message),
            r is Some ==> r->0.decoded_from(*message),
    {
        match (message.str_at("msg"), message.str_at("version")) {
            (Some(msg), Some(version)) => {
                if same_text(msg, "failed") {
                    Some(
                        Failed { msg: String::from_str(msg), version: String::from_str(version) },
                    )
                } else {
                    None
                }
            },
            _ => None,
        }
    }
}

impl FromResponse for Failed {
    open spec fn decodable(message: Json) -> bool {
        is_kind(message, "failed"@) && message.string_at("version"@) is Some
    }

    open spec fn decoded_from(&self, message: Json) -> bool {
        self.msg@ == "failed"@ && Some(self.version@) == message.string_at("version"@)
    }

    fn from_response(response: &str) -> (r: Option<Self>) {
        match Json::parse(response) {
            Some(message) => Failed::from_json(&message),
            None => None,
        }
    }
}

impl Ping {
    /// Reads the record from a parsed frame.
    pub fn from_json(message: &Json) -> (r: Option<Ping>)
        ensures
            r is Some <==> Self::decodable(*message),
            r is Some ==> r->0.decoded_from(*message),
    {
        match message.str_at("msg") {
            Some(msg) => {
                if !same_text(msg, "ping") {
                    return None;
                }
                let id = match message.get("id") {
                    None => None,
                    Some(Json::Null) => None,
                    Some(Json::Text(s)) => Some(s.clone()),
                    Some(_) => {
                        return None;
                    },
                };
                Some(Ping { msg: String::from_str(msg), id: id })
            },
            None => None,
        }
    }
}

impl FromResponse for Ping {
    open spec fn decodable(message: Json) -> bool {
        is_kind(message, "ping"@) && optional_string(message, "id"@) is Some
    }

    open spec fn decoded_from(&self, message: Json) -> bool {
        self.msg@ == "ping"@ && Some(owned_view(self.id)) == optional_string(message, "id"@)
    }

    fn from_response(response: &str) -> (r: Option<Self>) {
        match Json::parse(response) {
            Some(message) => Ping::from_json(&message),
            None => None,
        }
    }
}

impl MethodResult {
    /// Reads the record from a parsed frame, which is given up for it.
    pub fn from_json(message: Json) -> (r: Option<MethodResult>)
        ensures
            r is Some <==> Self::decodable(message),
            r is Some ==> r->0.decoded_from(message),
    {
        let (msg, id) = match (message.str_at("msg"), message.str_at("id")) {
            (Some(msg), Some(id)) => {
                if !same_text(msg, "result") {
                    return None;
                }
                (String::from_str(msg), String::from_str(id))
            },
            _ => {
                return None;
            },
        };
        match message.into_member("result") {
            Some(result) => Some(MethodResult { msg: msg, id: id, result: result }),
            None => None,
        }
    }
}

impl FromResponse for MethodResult {
    open spec fn decodable(message: Json) -> bool {
        &&& is_kind(message, "result"@)
        &&& message.string_at("id"@) is Some
        &&& message.member("result"@) is Some
    }

    open spec fn decoded_from(&self, message: Json) -> bool {
        &&& self.msg@ == "result"@
        &&& Some(self.id@) == message.string_at("id"@)
        &&& Some(self.result) == message.member("result"@)
    }

    fn from_response(response: &str) -> (r: Option<Self>) {
        match Json::parse(response) {
            Some(message) => MethodResult::from_json(message),
            None => None,
        }
    }
}

} // verus!
