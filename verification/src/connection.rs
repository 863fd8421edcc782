//! A session with the server: how it is agreed and what it offers once it
//! stands.

use vstd::prelude::*;
use vstd::string::*;
use crate::dispatcher::Core;
use crate::json::{json_parse, Json};
use crate::messages::{connect_text, find_version, params_view, version_at, version_index, versions};
use crate::messages::{Connect, VERSION_COUNT};
use crate::random::is_id;
use crate::text::same_text;

verus! {

/// `websocket::result::WebSocketError`, the transport's error. It is
/// carried and never looked into.
#[verifier::external_type_specification]
#[verifier::external_body]
pub struct ExWebSocketError(websocket::result::WebSocketError);

/// `std::io::Error`. It is carried and never looked into.
#[verifier::external_type_specification]
#[verifier::external_body]
pub struct ExIoError(std::io::Error);

/// `url::ParseError`, the URL parser's error. It is carried and never
/// looked into.
#[verifier::external_type_specification]
#[verifier::external_body]
pub struct ExParseError(url::ParseError);

/// Why no session came about.
#[derive(Debug)]
pub enum DdpConnError {
    /// The transport failed while the session was being agreed.
    Network(websocket::result::WebSocketError),
    /// The server sent something else than an answer to `connect`, or
    /// nothing at all.
    MalformedPacket,
    /// The server proposed a version that this client does not speak.
    NoMatchingVersion,
    /// The address is not that of a WebSocket.
    UrlIsNotWebsocket,
    /// The transport could not be set up for reading and writing.
    IoError(std::io::Error),
    /// The address is not a URL.
    Parse(url::ParseError),
}

/// The server's answer to `connect`.
#[derive(Debug, PartialEq, Eq)]
pub enum NegotiateResp {
    /// The session stands and has this id.
    SessionId(String),
    /// The server refuses the proposed version and proposes this one.
    Version(String),
}

/// What a frame means to a client that waits for the answer to `connect`.
pub enum Negotiated {
    /// The frame is no answer: keep reading.
    Pending,
    /// The frame is the answer.
    Done(NegotiateResp),
    /// The frame is nothing that may come at this point.
    Failed(DdpConnError),
}

/// What follows from the server's answer.
#[derive(Debug, PartialEq, Eq)]
pub enum Handshake {
    /// The session stands, in the version at `v_index`.
    Established { session: String, v_index: usize },
    /// Open the transport again and propose the version at `v_index`.
    Reopen { v_index: usize },
}

/// The scheme of the URL that `text` denotes, lower-cased and without the
/// colon; `None` where `text` is not an absolute URL.
pub uninterp spec fn url_scheme(text: Seq<char>) -> Option<Seq<char>>;

/// `url::Url::parse` and then `url::Url::scheme`: the scheme of the URL, or
/// the parser's error where the text is not an absolute URL. The result
/// depends on the text alone, so it has a name.
#[verifier::external_body]
fn parse_scheme(text: &str) -> (r: Result<String, url::ParseError>)
    ensures
        r is Ok == url_scheme(text@) is Some,
        r is Ok ==> r->Ok_0@ == url_scheme(text@)->0,
{
    url::Url::parse(text).map(|u| u.scheme().to_string())
}

/// Whether `scheme` is one over which WebSockets run.
pub open spec fn is_websocket_scheme(scheme: Seq<char>) -> bool {
    scheme == "ws"@ || scheme == "wss"@
}

/// What a frame means to a client that waits for the answer to `connect`,
/// as a value.
pub enum Answer {
    /// The frame is a leftover of an older protocol: pass it over.
    Pass,
    /// The session stands and has this id.
    Session(Seq<char>),
    /// The server refuses the proposed version and proposes this one.
    Proposal(Seq<char>),
    /// The frame is nothing that may come at this point.
    Malformed,
}

/// What a parsed frame means during the negotiation. A frame that mentions
/// `server_id` is passed over; `connected` with a session and `failed` with
/// a version are answers; anything else may not come.
pub open spec fn answer_of(message: Json) -> Answer {
    if message.member("server_id"@) is Some {
        Answer::Pass
    } else if message.string_at("msg"@) == Some("connected"@) && message.string_at("session"@)
        is Some {
        Answer::Session(message.string_at("session"@)->0)
    } else if message.string_at("msg"@) == Some("failed"@) && message.string_at("version"@)
        is Some {
        Answer::Proposal(message.string_at("version"@)->0)
    } else {
        Answer::Malformed
    }
}

/// What the text of a frame means during the negotiation. Text that is not
/// JSON may not come.
pub open spec fn answer_in(plaintext: Seq<char>) -> Answer {
    match json_parse(plaintext) {
        Some(message) => answer_of(message),
        None => Answer::Malformed,
    }
}

impl View for Negotiated {
    type V = Answer;

    open spec fn view(&self) -> Answer {
        match *self {
            Negotiated::Pending => Answer::Pass,
            Negotiated::Done(NegotiateResp::SessionId(session)) => Answer::Session(session@),
            Negotiated::Done(NegotiateResp::Version(version)) => Answer::Proposal(version@),
            Negotiated::Failed(_) => Answer::Malformed,
        }
    }
}

/// Accepts the addresses whose scheme is `ws` or `wss`.
pub fn check_url(url: &str) -> (r: Result<(), DdpConnError>)
    ensures
        match url_scheme(url@) {
            None => (r is Err && r->Err_0 is Parse),
            Some(scheme) => if is_websocket_scheme(scheme) {
                r is Ok
            } else {
                (r is Err && r->Err_0 is UrlIsNotWebsocket)
            },
        },
{
    match parse_scheme(url) {
        Ok(scheme) => check_scheme(scheme.as_str()),
        Err(e) => Err(DdpConnError::Parse(e)),
    }
}

/// Accepts the schemes `ws` and `wss`.
pub fn check_scheme(scheme: &str) -> (r: Result<(), DdpConnError>)
    ensures
        is_websocket_scheme(scheme@) ==> r is Ok,
        !is_websocket_scheme(scheme@) ==> (r is Err && r->Err_0 is UrlIsNotWebsocket),
{
    if !same_text(scheme, "ws") && !same_text(scheme, "wss") {
        return Err(DdpConnError::UrlIsNotWebsocket);
    }
    Ok(())
}

/// The `connect` frame that proposes the version at `v_index`.
pub fn request(v_index: usize) -> (frame: String)
    requires
        v_index < VERSION_COUNT,
    ensures
        frame@ == connect_text(versions()[v_index as int]),
{
    Connect::new(version_at(v_index)).to_json()
}

/// What the transport delivers.
pub enum Incoming<'a> {
    /// A text frame.
    Text(&'a str),
    /// The end of the transport: a close frame, or an error in reading.
    Closed,
    /// Any other frame.
    Other,
}

/// What the reader does with what the transport delivers.
#[derive(Clone, Copy, Debug, PartialEq, Eq)]
pub enum ReaderStep {
    /// Hand the text to the engine and go on.
    Dispatch,
    /// Pass the frame over and go on.
    Skip,
    /// Stop reading.
    Stop,
}

/// Decides what the reader of a standing session does with what arrives:
/// text goes to the engine, the transport's end ends the reader, and
/// anything else is passed over.
pub fn reader_step(frame: &Incoming) -> (next: ReaderStep)
    ensures
        frame is Text ==> next is Dispatch,
        frame is Other ==> next is Skip,
        frame is Closed ==> next is Stop,
{
    match frame {
        Incoming::Text(_) => ReaderStep::Dispatch,
        Incoming::Other => ReaderStep::Skip,
        Incoming::Closed => ReaderStep::Stop,
    }
}

/// Reads what arrives while the client waits for the answer to `connect`:
/// text is read as a frame, and anything but text may not come.
pub fn negotiate_frame(frame: Incoming) -> (step: Negotiated)
    ensures
        frame is Text ==> step@ == answer_in(frame->Text_0@),
        !(frame is Text) ==> step is Failed,
        step is Failed ==> step->Failed_0 is MalformedPacket,
{
    match frame {
        Incoming::Text(plaintext) => negotiate(plaintext),
        _ => Negotiated::Failed(closed()),
    }
}

/// Reads one frame that arrives while the client waits for the answer
/// to `connect`.
pub fn negotiate(plaintext: &str) -> (step: Negotiated)
    ensures
        step@ == answer_in(plaintext@),
        step is Failed ==> step->Failed_0 is MalformedPacket,
{
    match Json::parse(plaintext) {
        Some(message) => negotiate_message(&message),
        None => Negotiated::Failed(DdpConnError::MalformedPacket),
    }
}

/// Reads one parsed frame that arrives while the client waits for the
/// answer to `connect`.
pub fn negotiate_message(message: &Json) -> (step: Negotiated)
    ensures
        step@ == answer_of(*message),
        step is Failed ==> step->Failed_0 is MalformedPacket,
{
    proof {
        reveal_strlit("connected");
        reveal_strlit("failed");
        assert("connected"@.len() == 9);
        assert("failed"@.len() == 6);
    }
    if message.get("server_id").is_some() {
        return Negotiated::Pending;
    }
    match message.str_at("msg") {
        Some(msg) => {
            if same_text(msg, "connected") {
                match message.str_at("session") {
                    Some(session) => {
                        return Negotiated::Done(
                            NegotiateResp::SessionId(String::from_str(session)),
                        );
                    },
                    None => {},
                }
            } else if same_text(msg, "failed") {
                match message.str_at("version") {
                    Some(version) => {
                        return Negotiated::Done(
                            NegotiateResp::Version(String::from_str(version)),
                        );
                    },
                    None => {},
                }
            }
        },
        None => {},
    }
    Negotiated::Failed(DdpConnError::MalformedPacket)
}

/// What the transport's end means while the client waits for the answer
/// to `connect`.
pub fn closed() -> (e: DdpConnError)
    ensures
        e is MalformedPacket,
{
    DdpConnError::MalformedPacket
}

/// Decides what follows from the server's answer to a `connect` that
/// proposed the version at `v_index`: the session stands; or the server
/// proposes a version this client speaks, and the client is to come
/// back with it; or it proposes one the client does not speak.
pub fn connect(resp: NegotiateResp, v_index: usize) -> (r: Result<Handshake, DdpConnError>)
    ensures
        match resp {
            NegotiateResp::SessionId(session) => r == Ok::<Handshake, DdpConnError>(
                Handshake::Established { session: session, v_index: v_index },
            ),
            NegotiateResp::Version(version) => match version_index(version@) {
                Some(at) => r == Ok::<Handshake, DdpConnError>(
                    Handshake::Reopen { v_index: at as usize },
                ) && at < VERSION_COUNT,
                None => (r is Err && r->Err_0 is NoMatchingVersion),
            },
        },
{
    match resp {
        NegotiateResp::SessionId(session) => Ok(
            Handshake::Established { session: session, v_index: v_index },
        ),
        NegotiateResp::Version(server_version) => {
            match find_version(server_version.as_str()) {
                Some(i) => Ok(Handshake::Reopen { v_index: i }),
                None => Err(DdpConnError::NoMatchingVersion),
            }
        },
    }
}

/// A session that stands.
pub struct Connection<M, S, A, C, R> {
    /// The engine behind the session.
    pub core: Core<M, S, A, C, R>,
    /// The id the server gave the session.
    pub session_id: String,
    /// The place of the session's version in the order of preference.
    pub version: usize,
}

impl<M, S, A, C, R> Connection<M, S, A, C, R> {
    /// The engine is in order and the version is one this client speaks.
    pub open spec fn wf(&self) -> bool {
        self.core.wf() && self.version < VERSION_COUNT
    }

    /// The session `session_id` in the version at `v_index`, on an engine
    /// that the caller has made.
    pub fn new(core: Core<M, S, A, C, R>, session_id: String, v_index: usize) -> (connection: Self)
        requires
            core.wf(),
            v_index < VERSION_COUNT,
        ensures
            connection.wf(),
            connection.core == core,
            connection.session_id == session_id,
            connection.version == v_index,
    {
        Connection { core: core, session_id: session_id, version: v_index }
    }

    /// Calls the server method `method`; `callback` waits for the result.
    pub fn call(&mut self, method: &str, params: Option<&Vec<&Json>>, callback: M) -> (id: String)
        requires
            old(self).wf(),
        ensures
            final(self).wf(),
            is_id(id@),
            final(self).core@ == old(self).core@.called(
                id@,
                method@,
                params_view(params),
                callback,
            ),
            final(self).session_id == old(self).session_id,
            final(self).version == old(self).version,
    {
        self.core.call(method, params, callback)
    }

    /// The place of the collection `collection` in the engine's registry:
    /// the same place for the same name, whenever it is asked for.
    pub fn mongo(&mut self, collection: String) -> (at: usize)
        requires
            old(self).wf(),
        ensures
            final(self).wf(),
            (final(self).core@, at as int) == old(self).core@.with_collection(collection@),
            at < final(self).core@.mongos.len(),
            final(self).core@.mongos[at as int].name == collection@,
            final(self).session_id == old(self).session_id,
            final(self).version == old(self).version,
    {
        self.core.mongo(collection)
    }

    /// The id the server gave the session.
    pub fn session(&self) -> (id: &str)
        ensures
            id@ == self.session_id@,
    {
        self.session_id.as_str()
    }

    /// The name of the session's protocol version.
    pub fn version(&self) -> (name: &'static str)
        requires
            self.wf(),
        ensures
            name@ == versions()[self.version as int],
    {
        version_at(self.version)
    }
}

} // verus!
