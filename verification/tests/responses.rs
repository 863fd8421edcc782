use ddp::client::{Client, Error, Retry};
use ddp::json::Json;
use ddp::responses::{Connected, Failed, FromResponse, MethodResult, Ping};
use ddp::responses::{VersionFailed, VersionSuccess};

#[test]
fn connected_needs_its_kind_and_a_session() {
    assert_eq!(
        Connected::from_response("{\"msg\":\"connected\",\"session\":\"S-42\"}"),
        Some(Connected { msg: "connected".to_string(), session: "S-42".to_string() })
    );
    assert_eq!(
        Connected::from_response("{\"session\":\"S\",\"msg\":\"connected\",\"extra\":[1]}"),
        Some(Connected { msg: "connected".to_string(), session: "S".to_string() })
    );
    for text in [
        "{\"msg\":\"connected\"}",
        "{\"msg\":\"connected\",\"session\":1}",
        "{\"msg\":\"failed\",\"session\":\"S\"}",
        "{\"session\":\"S\"}",
        "[\"connected\",\"S\"]",
        "connected",
    ] {
        assert_eq!(Connected::from_response(text), None, "{}", text);
    }
}

#[test]
fn failed_needs_its_kind_and_a_version() {
    assert_eq!(
        Failed::from_response("{\"msg\":\"failed\",\"version\":\"pre2\"}"),
        Some(Failed { msg: "failed".to_string(), version: "pre2".to_string() })
    );
    for text in [
        "{\"msg\":\"failed\"}",
        "{\"msg\":\"failed\",\"version\":2}",
        "{\"msg\":\"connected\",\"version\":\"1\"}",
        "",
    ] {
        assert_eq!(Failed::from_response(text), None, "{}", text);
    }
}

#[test]
fn ping_may_have_an_id() {
    assert_eq!(
        Ping::from_response("{\"msg\":\"ping\",\"id\":\"q\"}"),
        Some(Ping { msg: "ping".to_string(), id: Some("q".to_string()) })
    );
    assert_eq!(
        Ping::from_response("{\"msg\":\"ping\"}"),
        Some(Ping { msg: "ping".to_string(), id: None })
    );
    assert_eq!(
        Ping::from_response("{\"msg\":\"ping\",\"id\":null}"),
        Some(Ping { msg: "ping".to_string(), id: None })
    );
    for text in ["{\"msg\":\"ping\",\"id\":5}", "{\"msg\":\"pong\"}", "{\"id\":\"q\"}", "{"] {
        assert_eq!(Ping::from_response(text), None, "{}", text);
    }
}

#[test]
fn method_result_holds_any_value() {
    assert_eq!(
        MethodResult::from_response("{\"msg\":\"result\",\"id\":\"i\",\"result\":{\"a\":[true]}}"),
        Some(MethodResult {
            msg: "result".to_string(),
            id: "i".to_string(),
            result: Json::Object(vec![("a".to_string(), Json::Array(vec![Json::Bool(true)]))]),
        })
    );
    assert_eq!(
        MethodResult::from_response("{\"msg\":\"result\",\"id\":\"i\",\"result\":null}"),
        Some(MethodResult { msg: "result".to_string(), id: "i".to_string(), result: Json::Null })
    );
    for text in [
        "{\"msg\":\"result\",\"id\":\"i\"}",
        "{\"msg\":\"result\",\"id\":\"i\",\"error\":1}",
        "{\"msg\":\"result\",\"result\":1}",
        "{\"msg\":\"ready\",\"id\":\"i\",\"result\":1}",
    ] {
        assert_eq!(MethodResult::from_response(text), None, "{}", text);
    }
}

#[test]
fn records_are_read_from_parsed_frames_too() {
    let frame = Json::parse("{\"msg\":\"ping\",\"id\":\"q\"}").unwrap();
    assert_eq!(Ping::from_json(&frame), Some(Ping { msg: "ping".to_string(), id: Some("q".to_string()) }));
    assert_eq!(Connected::from_json(&frame), None);
    assert_eq!(Failed::from_json(&frame), None);
    assert_eq!(MethodResult::from_json(frame), None);
}

#[test]
fn a_client_needs_a_websocket_address() {
    let client: Client<fn(u32, u32) -> Option<u32>> = Client::new("ws://127.0.0.1:3000/websocket").unwrap();
    assert_eq!(client.url, "ws://127.0.0.1:3000/websocket");
    assert!(client.retry.is_none());
    assert!(Client::<fn(u32, u32) -> Option<u32>>::new("wss://h/").is_ok());
    assert_eq!(
        Client::<fn(u32, u32) -> Option<u32>>::new("http://127.0.0.1:3000/").err(),
        Some(Error::UrlIsNotWebsocket)
    );
    assert_eq!(
        Client::<fn(u32, u32) -> Option<u32>>::new("ftp://127.0.0.1:3000").err(),
        Some(Error::UrlIsNotWebsocket)
    );
    assert_eq!(
        Client::<fn(u32, u32) -> Option<u32>>::new("127.0.0.1:3000").err(),
        Some(Error::ParseError)
    );
    assert_eq!(Client::<fn(u32, u32) -> Option<u32>>::new("//nowhere").err(), Some(Error::ParseError));
    assert_eq!(Client::<fn(u32, u32) -> Option<u32>>::new("").err(), Some(Error::ParseError));
}

#[test]
fn a_client_is_told_how_to_retry() {
    fn curve(attempt: u32, last: u32) -> Option<u32> {
        if attempt < 3 {
            Some(last + 10)
        } else {
            None
        }
    }
    let mut client: Client<fn(u32, u32) -> Option<u32>> = Client::new("ws://h/").unwrap();
    client.retry(Retry::Linear);
    assert!(matches!(client.retry, Some(Retry::Linear)));
    client.retry(Retry::Exponential);
    assert!(matches!(client.retry, Some(Retry::Exponential)));
    client.retry(Retry::Quadratic);
    assert!(matches!(client.retry, Some(Retry::Quadratic)));
    client.retry_custom(curve);
    match &client.retry {
        Some(Retry::Custom(f)) => {
            assert_eq!(f(1, 5), Some(15));
            assert_eq!(f(3, 5), None);
        }
        _ => panic!("a curve of its own"),
    }
    client.no_retry();
    assert!(client.retry.is_none());
    assert_eq!(client.url, "ws://h/");
}

#[test]
fn the_negotiation_records_are_read_alike() {
    assert_eq!(
        VersionSuccess::from_response("{\"msg\":\"connected\",\"session\":\"S-42\"}"),
        Some(VersionSuccess { msg: "connected".to_string(), session: "S-42".to_string() })
    );
    assert_eq!(
        VersionFailed::from_response("{\"msg\":\"failed\",\"version\":\"pre1\"}"),
        Some(VersionFailed { msg: "failed".to_string(), version: "pre1".to_string() })
    );
    assert_eq!(VersionFailed::from_response("{\"msg\":\"connected\",\"session\":\"S\"}"), None);
}
