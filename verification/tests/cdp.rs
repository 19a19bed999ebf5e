use eiger::cdp::{
    answer, controller_commands, disguise_commands, event_target_type, is_document,
    number_commands, proxy_disguise_commands, request_text, Answer, Command, StealthController,
};
use eiger::json::{parse, parse_message, Json, Message};
use serde_json::Value;

fn value(text: &str) -> Value {
    serde_json::from_str(text).unwrap()
}

#[test]
fn the_controller_opens_by_attaching_to_everything() {
    let mut controller = StealthController::new();
    let texts = controller.open();
    assert_eq!(texts.len(), 2);
    let attach = value(&texts[0]);
    assert_eq!(attach["id"], 10000);
    assert_eq!(attach["method"], "Target.setAutoAttach");
    assert_eq!(attach["params"]["autoAttach"], true);
    assert_eq!(attach["params"]["waitForDebuggerOnStart"], true);
    assert_eq!(attach["params"]["flatten"], true);
    assert!(attach.get("sessionId").is_none());
    let discover = value(&texts[1]);
    assert_eq!(discover["id"], 10001);
    assert_eq!(discover["method"], "Target.setDiscoverTargets");
    assert_eq!(discover["params"]["discover"], true);
}

#[test]
fn the_controller_attaches_to_new_pages() {
    let mut controller = StealthController::new();
    let created = |kind: &str| {
        format!(r#"{{"method":"Target.targetCreated","params":{{"targetInfo":{{"targetId":"T","type":"{kind}"}}}}}}"#)
    };
    let step = controller.on_message(&created("page")).unwrap();
    let attach = value(&step.send[0]);
    assert_eq!(attach["method"], "Target.attachToTarget");
    assert_eq!(attach["params"]["targetId"], "T");
    assert_eq!(attach["id"], 10000);
    assert!(controller.on_message(&created("browser")).unwrap().send.is_empty());
    let step = controller.on_message(&created("iframe")).unwrap();
    assert_eq!(value(&step.send[0])["id"], 10001);
}

#[test]
fn the_controller_disguises_pages_and_lets_every_target_go_on() {
    let mut controller = StealthController::new();
    let attached = |kind: &str| {
        format!(r#"{{"method":"Target.attachedToTarget","params":{{"sessionId":"S","targetInfo":{{"type":"{kind}"}}}}}}"#)
    };
    let step = controller.on_message(&attached("page")).unwrap();
    let methods: Vec<String> = step
        .send
        .iter()
        .map(|text| {
            assert_eq!(value(text)["sessionId"], "S");
            value(text)["method"].as_str().unwrap().to_owned()
        })
        .collect();
    assert_eq!(
        methods,
        vec![
            "Page.enable",
            "Page.addScriptToEvaluateOnNewDocument",
            "Runtime.evaluate",
            "Runtime.runIfWaitingForDebugger",
        ]
    );
    let step = controller.on_message(&attached("worker")).unwrap();
    assert_eq!(step.send.len(), 1);
    assert_eq!(value(&step.send[0])["method"], "Runtime.runIfWaitingForDebugger");
    assert_eq!(value(&step.send[0])["id"], 10004);
}

#[test]
fn the_controller_reports_errors_and_ends_on_nonsense() {
    let mut controller = StealthController::new();
    let step = controller.on_message(r#"{"id":10000,"error":{"code":1}}"#).unwrap();
    assert_eq!(step.error.as_deref(), Some(r#"{"code":1}"#));
    assert!(step.send.is_empty());
    assert_eq!(
        controller.on_message("").unwrap_err(),
        "EOF while parsing a value at line 1 column 0"
    );
}

#[test]
fn the_controller_replies_to_what_was_read() {
    let mut controller = StealthController::new();
    let body = parse(r#"{"method":"Target.attachedToTarget","params":{"sessionId":"S"}}"#).unwrap();
    let step = controller.on_body(Message { body, error: Some("e".to_owned()) });
    assert_eq!(step.error.as_deref(), Some("e"));
    assert_eq!(step.send.len(), 1);
    assert_eq!(value(&step.send[0])["method"], "Runtime.runIfWaitingForDebugger");
}

#[test]
fn answers_are_told_apart_by_their_number() {
    let told = |text: &str, id| answer(parse_message(text).unwrap(), id);
    assert!(matches!(told(r#"{"id":3,"result":1}"#, 4), Answer::Other));
    assert!(matches!(told(r#"{"id":3,"result":1}"#, 3), Answer::Done(Json::Unsigned(1))));
    assert!(matches!(told(r#"{"id":3}"#, 3), Answer::Done(Json::Null)));
    assert!(matches!(told(r#"{"id":-3}"#, 3), Answer::Other));
    match told(r#"{"id":3,"error":"no","result":1}"#, 3) {
        Answer::Failed(words) => assert_eq!(words, "\"no\""),
        other => panic!("{other:?}"),
    }
}

#[test]
fn numbers_start_again_behind_the_largest() {
    let mut next = u64::MAX;
    let texts = number_commands(disguise_commands(Some("S")), &mut next);
    assert_eq!(value(&texts[0])["id"].as_u64(), Some(u64::MAX));
    assert_eq!(value(&texts[1])["id"], 0);
    assert_eq!(next, 2);
}

#[test]
fn disguises_are_commands() {
    let lone: Vec<&str> = disguise_commands(None).iter().map(|command| command.method).collect();
    let proxied: Vec<&str> =
        proxy_disguise_commands("S").iter().map(|command| command.method).collect();
    assert_eq!(lone, proxied);
    assert!(controller_commands(&parse(r#"{"method":"Other"}"#).unwrap()).is_empty());
    assert!(controller_commands(&parse("[]").unwrap()).is_empty());
    assert!(is_document(Some("page")) && is_document(Some("iframe")));
    assert!(!is_document(Some("worker")) && !is_document(None));
    let params = parse(r#"{"targetInfo":{"type":"page"}}"#).unwrap();
    assert_eq!(event_target_type(&params), Some("page"));
}

#[test]
fn requests_are_written_as_json() {
    let command = Command {
        session_id: Some("a\"b".to_owned()),
        method: "M",
        params: Json::Array(vec![Json::Null, Json::Negative(-1), Json::Decimal("0.5".to_owned())]),
    };
    assert_eq!(
        request_text(7, command),
        r#"{"id":7,"method":"M","params":[null,-1,0.5],"sessionId":"a\"b"}"#
    );
}
