use eiger::json::{parse, Json, Message};
use eiger::proxy::{
    axum_to_upstream_message, client_message_stealth_session, inject_stealth_from_proxy_event,
    is_eiger_cdp_response, requested_session, ClientMessage, Proxy, UpstreamMessage,
    EIGER_CDP_ID_START,
};
use eiger::stealth::BASELINE_SCRIPT;
use serde_json::Value;

fn client(text: &str) -> ClientMessage {
    ClientMessage::Text(text.to_owned())
}

fn upstream(text: &str) -> UpstreamMessage {
    UpstreamMessage::Text(text.to_owned())
}

fn check_injection(texts: &[String], first: u64, session: &str) {
    let values: Vec<Value> = texts.iter().map(|text| serde_json::from_str(text).unwrap()).collect();
    let methods: Vec<&str> = values.iter().map(|value| value["method"].as_str().unwrap()).collect();
    assert_eq!(
        methods,
        vec!["Page.enable", "Page.addScriptToEvaluateOnNewDocument", "Runtime.evaluate"]
    );
    for (at, value) in values.iter().enumerate() {
        assert_eq!(value["id"].as_u64(), Some(first + at as u64));
        assert_eq!(value["sessionId"], session);
    }
    assert_eq!(values[1]["params"]["source"], BASELINE_SCRIPT);
    assert_eq!(values[2]["params"]["expression"], BASELINE_SCRIPT);
}

#[test]
fn pages_are_disguised_before_they_are_shown() {
    let mut proxy = Proxy::new(true);
    let text = r#"{"id":1,"method":"Page.navigate","sessionId":"S","params":{}}"#;
    let step = proxy.on_client(client(text));
    check_injection(&step.inject, EIGER_CDP_ID_START, "S");
    assert!(matches!(step.forward, UpstreamMessage::Text(sent) if sent == text));
    let step = proxy.on_client(client(r#"{"method":"Page.captureScreenshot","sessionId":"T"}"#));
    check_injection(&step.inject, EIGER_CDP_ID_START + 3, "T");
    let step = proxy.on_client(client(r#"{"method":"Runtime.evaluate","sessionId":"S"}"#));
    assert!(step.inject.is_empty());
}

#[test]
fn attached_pages_are_disguised() {
    let mut proxy = Proxy::new(true);
    let event = r#"{"method":"Target.attachedToTarget","params":{"sessionId":"S","targetInfo":{"type":"iframe"}}}"#;
    let step = proxy.upstream_to_axum_message(upstream(event));
    check_injection(&step.inject, EIGER_CDP_ID_START, "S");
    assert!(matches!(step.forward, Some(ClientMessage::Text(text)) if text == event));
    let worker = event.replace("iframe", "worker");
    let step = proxy.upstream_to_axum_message(upstream(&worker));
    assert!(step.inject.is_empty());
    assert!(step.forward.is_some());
}

#[test]
fn own_answers_do_not_reach_the_client() {
    let mut proxy = Proxy::new(true);
    let step = proxy.upstream_to_axum_message(upstream(r#"{"id":9000000000,"result":{}}"#));
    assert!(step.forward.is_none());
    assert_eq!(step.error, None);
    let step = proxy.upstream_to_axum_message(upstream(
        r#"{"id":9000000001,"error":{"message":"no"}}"#,
    ));
    assert!(step.forward.is_none());
    assert_eq!(step.error.as_deref(), Some(r#"{"message":"no"}"#));
    let step = proxy.upstream_to_axum_message(upstream(r#"{"id":8999999999,"result":{}}"#));
    assert!(step.forward.is_some());
}

#[test]
fn a_plain_proxy_adds_nothing() {
    let mut proxy = Proxy::new(false);
    let step = proxy.on_client(client(r#"{"method":"Page.navigate","sessionId":"S"}"#));
    assert!(step.inject.is_empty());
    let step = proxy.upstream_to_axum_message(upstream(
        r#"{"method":"Target.attachedToTarget","params":{"sessionId":"S","targetInfo":{"type":"page"}}}"#,
    ));
    assert!(step.inject.is_empty());
    assert!(step.forward.is_some());
}

#[test]
fn every_kind_of_message_is_passed_on() {
    let to = axum_to_upstream_message;
    assert!(matches!(to(ClientMessage::Binary(vec![1])), UpstreamMessage::Binary(b) if b == vec![1]));
    assert!(matches!(to(ClientMessage::Ping(vec![2])), UpstreamMessage::Ping(b) if b == vec![2]));
    assert!(matches!(to(ClientMessage::Pong(vec![3])), UpstreamMessage::Pong(b) if b == vec![3]));
    assert!(matches!(to(ClientMessage::Close), UpstreamMessage::Close));
    assert!(matches!(to(client("x")), UpstreamMessage::Text(t) if t == "x"));
    let mut proxy = Proxy::new(true);
    let mut back = |message| proxy.upstream_to_axum_message(message).forward;
    assert!(matches!(back(UpstreamMessage::Binary(vec![1])), Some(ClientMessage::Binary(_))));
    assert!(matches!(back(UpstreamMessage::Ping(vec![])), Some(ClientMessage::Ping(_))));
    assert!(matches!(back(UpstreamMessage::Pong(vec![])), Some(ClientMessage::Pong(_))));
    assert!(matches!(back(UpstreamMessage::Close), Some(ClientMessage::Close)));
    assert!(back(UpstreamMessage::Frame).is_none());
    assert!(matches!(back(upstream("no json")), Some(ClientMessage::Text(_))));
}

#[test]
fn sessions_are_found_in_messages() {
    for method in ["Page.navigate", "Page.reload", "Page.printToPDF", "Page.captureScreenshot"] {
        let text = format!(r#"{{"method":"{method}","sessionId":"S"}}"#);
        assert_eq!(client_message_stealth_session(&client(&text)).as_deref(), Some("S"));
        assert_eq!(requested_session(&parse(&text).unwrap()).as_deref(), Some("S"));
    }
    assert_eq!(client_message_stealth_session(&client(r#"{"method":"Page.navigate"}"#)), None);
    assert_eq!(client_message_stealth_session(&client("{")), None);
    assert_eq!(client_message_stealth_session(&ClientMessage::Close), None);
    assert!(is_eiger_cdp_response(&parse(r#"{"id":9000000000}"#).unwrap()));
    assert!(!is_eiger_cdp_response(&parse(r#"{"id":"9000000000"}"#).unwrap()));
    assert_eq!(
        inject_stealth_from_proxy_event(&parse(r#"{"method":"Target.attachedToTarget"}"#).unwrap()),
        None
    );
}

#[test]
fn messages_are_judged_by_what_was_read_in_them() {
    let mut proxy = Proxy::new(true);
    let body = Json::Object(vec![("id".to_owned(), Json::Unsigned(EIGER_CDP_ID_START + 5))]);
    let read = Message { body, error: Some("no".to_owned()) };
    let step = proxy.on_upstream(upstream("x"), Some(read));
    assert!(step.forward.is_none());
    assert!(step.inject.is_empty());
    assert_eq!(step.error.as_deref(), Some("no"));
    let body = parse(
        r#"{"method":"Target.attachedToTarget","params":{"sessionId":"S","targetInfo":{"type":"page"}}}"#,
    );
    let step = proxy.on_upstream(upstream("x"), Some(Message { body: body.unwrap(), error: None }));
    check_injection(&step.inject, EIGER_CDP_ID_START, "S");
    assert!(matches!(step.forward, Some(ClientMessage::Text(text)) if text == "x"));
    let step = proxy.on_upstream(upstream("x"), None);
    assert!(step.inject.is_empty());
    assert!(step.forward.is_some());
    check_injection(&proxy.send_stealth_commands(Some("T".to_owned())), EIGER_CDP_ID_START + 3, "T");
    assert!(proxy.send_stealth_commands(None).is_empty());
}
