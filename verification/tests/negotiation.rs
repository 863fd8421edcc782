use ddp::connection::{check_scheme, check_url, closed, connect, negotiate, negotiate_message, request};
use ddp::connection::{negotiate_frame, reader_step, Incoming, ReaderStep};
use ddp::connection::{DdpConnError, Handshake, NegotiateResp, Negotiated};
use ddp::json::Json;
use ddp::Connection;

type Session = Connection<u32, u32, u32, u32, u32>;

fn answer(text: &str) -> Negotiated {
    negotiate(text)
}

fn done(text: &str) -> NegotiateResp {
    match answer(text) {
        Negotiated::Done(resp) => resp,
        Negotiated::Pending => panic!("pending: {}", text),
        Negotiated::Failed(e) => panic!("failed: {} {:?}", text, e),
    }
}

#[test]
fn successful_negotiation() {
    assert_eq!(
        request(0),
        "{\"msg\":\"connect\",\"version\":\"1\",\"support\":[\"1\",\"pre2\",\"pre1\"]}"
    );
    let resp = done("{\"msg\":\"connected\",\"session\":\"S-42\"}");
    assert_eq!(resp, NegotiateResp::SessionId("S-42".to_string()));
    let standing = connect(resp, 0).unwrap();
    assert_eq!(standing, Handshake::Established { session: "S-42".to_string(), v_index: 0 });
    let core = ddp::dispatcher::Core::open().unwrap();
    let connection = Session::new(core, "S-42".to_string(), 0);
    assert_eq!(connection.session(), "S-42");
    assert_eq!(connection.version(), "1");
}

#[test]
fn version_downgrade() {
    let resp = done("{\"msg\":\"failed\",\"version\":\"pre2\"}");
    assert_eq!(resp, NegotiateResp::Version("pre2".to_string()));
    let next = connect(resp, 0).unwrap();
    assert_eq!(next, Handshake::Reopen { v_index: 1 });
    assert_eq!(
        request(1),
        "{\"msg\":\"connect\",\"version\":\"pre2\",\"support\":[\"1\",\"pre2\",\"pre1\"]}"
    );
    let resp = done("{\"msg\":\"connected\",\"session\":\"S-7\"}");
    let standing = connect(resp, 1).unwrap();
    assert_eq!(standing, Handshake::Established { session: "S-7".to_string(), v_index: 1 });
    let core = ddp::dispatcher::Core::open().unwrap();
    let connection = Session::new(core, "S-7".to_string(), 1);
    assert_eq!(connection.version(), "pre2");
    assert_eq!(connection.session(), "S-7");
}

#[test]
fn unknown_version_failure() {
    let resp = done("{\"msg\":\"failed\",\"version\":\"0.9\"}");
    assert_eq!(resp, NegotiateResp::Version("0.9".to_string()));
    assert!(matches!(connect(resp, 0), Err(DdpConnError::NoMatchingVersion)));
}

#[test]
fn every_supported_version_can_be_proposed_by_the_server() {
    for (name, at) in [("1", 0usize), ("pre2", 1), ("pre1", 2)] {
        for from in 0..3usize {
            let next = connect(NegotiateResp::Version(name.to_string()), from);
            assert_eq!(next.unwrap(), Handshake::Reopen { v_index: at });
        }
    }
    assert_eq!(
        request(2),
        "{\"msg\":\"connect\",\"version\":\"pre1\",\"support\":[\"1\",\"pre2\",\"pre1\"]}"
    );
}

#[test]
fn the_legacy_hint_is_passed_over() {
    assert!(matches!(answer("{\"server_id\":\"0\"}"), Negotiated::Pending));
    assert!(matches!(answer("{\"server_id\":null}"), Negotiated::Pending));
    assert!(matches!(
        answer("{\"server_id\":\"0\",\"msg\":\"connected\",\"session\":\"S\"}"),
        Negotiated::Pending
    ));
}

#[test]
fn anything_else_is_malformed() {
    for text in [
        "{\"msg\":\"ping\"}",
        "{\"msg\":\"connected\"}",
        "{\"msg\":\"connected\",\"session\":5}",
        "{\"msg\":\"failed\"}",
        "{\"msg\":\"failed\",\"version\":1}",
        "{\"msg\":\"connected\",\"version\":\"1\"}",
        "{\"session\":\"S\"}",
        "{}",
        "[]",
        "not json",
        "",
    ] {
        assert!(
            matches!(answer(text), Negotiated::Failed(DdpConnError::MalformedPacket)),
            "{}",
            text
        );
    }
}

#[test]
fn a_parsed_frame_is_read_like_its_text() {
    let message = Json::parse("{\"msg\":\"failed\",\"version\":\"pre1\"}").unwrap();
    assert!(matches!(
        negotiate_message(&message),
        Negotiated::Done(NegotiateResp::Version(v)) if v == "pre1"
    ));
}

#[test]
fn the_end_of_the_transport_is_malformed() {
    assert!(matches!(closed(), DdpConnError::MalformedPacket));
}

#[test]
fn only_websocket_addresses_are_accepted() {
    assert!(check_url("ws://127.0.0.1:3000/websocket").is_ok());
    assert!(check_url("wss://example.com/websocket").is_ok());
    assert!(check_url("WS://example.com/").is_ok());
    assert!(matches!(
        check_url("http://127.0.0.1:3000/websocket"),
        Err(DdpConnError::UrlIsNotWebsocket)
    ));
    assert!(matches!(
        check_url("https://example.com"),
        Err(DdpConnError::UrlIsNotWebsocket)
    ));
    assert!(matches!(check_url("wsx://example.com"), Err(DdpConnError::UrlIsNotWebsocket)));
    assert!(matches!(check_url("not a url"), Err(DdpConnError::Parse(_))));
    assert!(matches!(check_url(""), Err(DdpConnError::Parse(_))));
}

#[test]
fn only_websocket_schemes_are_accepted() {
    assert!(check_scheme("ws").is_ok());
    assert!(check_scheme("wss").is_ok());
    for scheme in ["http", "https", "", "w", "wsss", "WS", "ws "] {
        assert!(
            matches!(check_scheme(scheme), Err(DdpConnError::UrlIsNotWebsocket)),
            "{}",
            scheme
        );
    }
}

#[test]
fn a_connection_calls_and_finds_collections() {
    let core = ddp::dispatcher::Core::open().unwrap();
    let mut connection = Session::new(core, "S".to_string(), 2);
    assert_eq!(connection.version(), "pre1");
    let id = connection.call("login", None, 7);
    assert_eq!(
        connection.core.next_frame(),
        Some(format!("{{\"msg\":\"method\",\"id\":\"{}\",\"method\":\"login\"}}", id))
    );
    let a = connection.mongo("MongoColl".to_string());
    let b = connection.mongo("MongoColl".to_string());
    assert_eq!(a, b);
    assert_eq!(connection.core.collection_at(a).name(), "MongoColl");
    assert_eq!(connection.session(), "S");
}

#[test]
fn test_connect_version() {
    let url = "ws://127.0.0.1:3000/websocket";
    if let Err(err) = check_url(url) {
        panic!("An error occured: {:?}", err);
    }
    let mut v_index = 0;
    let greeting = request(v_index);
    assert!(greeting.contains("\"version\":\"1\""));
    let session = match negotiate("{\"msg\":\"connected\",\"session\":\"abc\"}") {
        Negotiated::Done(resp) => match connect(resp, v_index) {
            Ok(Handshake::Established { session, v_index: at }) => {
                v_index = at;
                session
            }
            other => panic!("An error occured: {:?}", other),
        },
        _ => panic!("no answer"),
    };
    let core = ddp::dispatcher::Core::open().unwrap();
    let mut client: Connection<Box<dyn FnMut(Result<&Json, &Json>)>, u32, u32, u32, u32> =
        Connection::new(core, session, v_index);
    println!("The session id is: {} with DDP v{}", client.session(), client.version());

    let login_message = Json::Object(vec![
        (
            "user".to_string(),
            Json::Object(vec![("username".to_string(), Json::Text("rc_bot".to_string()))]),
        ),
        ("password".to_string(), Json::Text("supersecret".to_string())),
    ]);
    println!("\n\nCalling a real method!\n\n");
    let id = client.call(
        "login",
        Some(&vec![&login_message]),
        Box::new(|result| {
            println!("Ran method, login");
            match result {
                Ok(output) => println!("got a result: {}", output.text()),
                Err(error) => println!("got an error: {}", error.text()),
            }
        }),
    );
    assert_eq!(
        client.core.next_frame(),
        Some(format!(
            "{{\"msg\":\"method\",\"id\":\"{}\",\"method\":\"login\",\"params\":[{{\"password\":\"supersecret\",\"user\":{{\"username\":\"rc_bot\"}}}}]}}",
            id
        ))
    );
}

#[test]
fn the_reader_passes_over_what_is_not_text() {
    assert_eq!(reader_step(&Incoming::Text("{\"msg\":\"ping\"}")), ReaderStep::Dispatch);
    assert_eq!(reader_step(&Incoming::Text("")), ReaderStep::Dispatch);
    assert_eq!(reader_step(&Incoming::Other), ReaderStep::Skip);
    assert_eq!(reader_step(&Incoming::Closed), ReaderStep::Stop);
}

#[test]
fn only_text_answers_during_the_negotiation() {
    assert!(matches!(
        negotiate_frame(Incoming::Text("{\"msg\":\"connected\",\"session\":\"S-42\"}")),
        Negotiated::Done(NegotiateResp::SessionId(s)) if s == "S-42"
    ));
    assert!(matches!(negotiate_frame(Incoming::Text("{\"server_id\":\"0\"}")), Negotiated::Pending));
    assert!(matches!(
        negotiate_frame(Incoming::Text("{\"msg\":\"ping\"}")),
        Negotiated::Failed(DdpConnError::MalformedPacket)
    ));
    assert!(matches!(
        negotiate_frame(Incoming::Other),
        Negotiated::Failed(DdpConnError::MalformedPacket)
    ));
    assert!(matches!(
        negotiate_frame(Incoming::Closed),
        Negotiated::Failed(DdpConnError::MalformedPacket)
    ));
}
