use base64::Engine;
use eiger::browser::SocketEvent;
use eiger::json::{parse, Json, Message};
use eiger::rest::{
    decode_cdp_data, decode_outcome, finish_task, page_load_options, pdf_paper_size,
    pdf_print_options, positive_dimension, required_string, CdpConnection, JobStep, PageJob,
    PageOutcome, PageTask, RestEndpointError, ScreenshotFormat, WaitUntil,
};
use eiger::span::Span;
use serde_json::Value;

fn json(text: &str) -> Json {
    parse(text).unwrap()
}

fn words(error: RestEndpointError) -> (&'static str, String) {
    match error {
        RestEndpointError::BadRequest(words) => ("bad", words),
        RestEndpointError::Pool(error) => ("pool", error.message()),
        RestEndpointError::CdpWebSocket(words) => ("socket", words),
        RestEndpointError::CdpProtocol(words) => ("protocol", words),
        RestEndpointError::CdpTimeout(method) => ("timeout", method.to_owned()),
        RestEndpointError::InvalidCdpResponse(words) => ("invalid", words),
        RestEndpointError::Decode(words) => ("decode", words),
    }
}

fn job(task: PageTask) -> (PageJob, String) {
    PageJob::start(page_load_options("http://e", None, Some(1000)).unwrap(), task)
}

fn sent(step: JobStep) -> Value {
    match step {
        JobStep::Send(text) => serde_json::from_str(&text).unwrap(),
        other => panic!("{other:?}"),
    }
}

fn reply(job: &mut PageJob, text: &str) -> JobStep {
    job.on_event(SocketEvent::Text(text.to_owned()))
}

fn failed(step: JobStep) -> (&'static str, String) {
    match step {
        JobStep::Failed(error) => words(error),
        other => panic!("{other:?}"),
    }
}

/// Brings a job to the point where its page is being loaded.
fn navigated(task: PageTask) -> PageJob {
    let (mut job, first) = job(task);
    assert_eq!(
        first,
        r#"{"id":1,"method":"Target.createTarget","params":{"url":"about:blank"}}"#
    );
    let attach = sent(reply(&mut job, r#"{"id":1,"result":{"targetId":"T"}}"#));
    assert_eq!(attach["method"], "Target.attachToTarget");
    assert_eq!(attach["params"]["targetId"], "T");
    assert_eq!(attach["params"]["flatten"], true);
    assert_eq!(attach["id"], 2);
    let enable = sent(reply(&mut job, r#"{"id":2,"result":{"sessionId":"S"}}"#));
    assert_eq!(enable["method"], "Page.enable");
    assert_eq!(enable["sessionId"], "S");
    let listen = sent(reply(&mut job, r#"{"id":3,"result":{}}"#));
    assert_eq!(listen["method"], "Page.setLifecycleEventsEnabled");
    assert_eq!(listen["params"]["enabled"], true);
    let navigate = sent(reply(&mut job, r#"{"id":4,"result":{}}"#));
    assert_eq!(navigate["method"], "Page.navigate");
    assert_eq!(navigate["params"]["url"], "http://e");
    assert_eq!(navigate["sessionId"], "S");
    job
}

fn loaded(task: PageTask) -> (PageJob, Value) {
    let mut job = navigated(task);
    assert!(matches!(reply(&mut job, r#"{"id":5,"result":{}}"#), JobStep::AwaitLoad));
    let last = sent(reply(
        &mut job,
        r#"{"method":"Page.lifecycleEvent","sessionId":"S","params":{"name":"load"}}"#,
    ));
    (job, last)
}

#[test]
fn words_name_points_in_the_life_of_a_page() {
    let parse = |word| WaitUntil::parse(word).unwrap();
    assert_eq!(parse(None), WaitUntil::Load);
    assert_eq!(parse(Some(" LOAD ")), WaitUntil::Load);
    assert_eq!(parse(Some("DOMContentLoaded")), WaitUntil::DomContentLoaded);
    assert_eq!(parse(Some("networkidle")), WaitUntil::NetworkIdle);
    assert_eq!(parse(Some("networkidle0")), WaitUntil::NetworkIdle);
    assert_eq!(parse(Some("networkAlmostIdle")), WaitUntil::NetworkAlmostIdle);
    assert_eq!(parse(Some("networkidle2")), WaitUntil::NetworkAlmostIdle);
    assert_eq!(
        words(WaitUntil::parse(Some(" never ")).unwrap_err()),
        ("bad", "unsupported waitUntil value:  never ".to_owned())
    );
    assert_eq!(WaitUntil::Load.lifecycle_name(), "load");
    assert_eq!(WaitUntil::DomContentLoaded.lifecycle_name(), "DOMContentLoaded");
    assert_eq!(WaitUntil::NetworkIdle.lifecycle_name(), "networkIdle");
    assert_eq!(WaitUntil::NetworkAlmostIdle.lifecycle_name(), "networkAlmostIdle");
}

#[test]
fn words_name_forms_of_pictures() {
    let parse = |word| ScreenshotFormat::parse(word).unwrap();
    assert_eq!(parse(None), ScreenshotFormat::Png);
    assert_eq!(parse(Some("PNG")), ScreenshotFormat::Png);
    assert_eq!(parse(Some("jpeg ")), ScreenshotFormat::Jpeg);
    assert_eq!(parse(Some("jpg")), ScreenshotFormat::Jpeg);
    assert_eq!(
        words(ScreenshotFormat::parse(Some("webp")).unwrap_err()),
        ("bad", "unsupported screenshot format: webp".to_owned())
    );
    assert_eq!(ScreenshotFormat::Png.cdp_name(), "png");
    assert_eq!(ScreenshotFormat::Jpeg.cdp_name(), "jpeg");
    assert_eq!(ScreenshotFormat::Png.content_type(), "image/png");
    assert_eq!(ScreenshotFormat::Jpeg.content_type(), "image/jpeg");
}

#[test]
fn pages_need_an_address_and_time() {
    let options = page_load_options(" http://e\n", Some("load"), None).unwrap();
    assert_eq!(options.url, "http://e");
    assert_eq!(options.timeout, Span::from_secs(30));
    let bad = |url, wait, time| words(page_load_options(url, wait, time).unwrap_err());
    assert_eq!(bad(" ", Some("x"), Some(0)), ("bad", "url is required".to_owned()));
    assert_eq!(
        bad("u", Some("x"), Some(0)),
        ("bad", "timeoutMs must be greater than 0".to_owned())
    );
    assert_eq!(bad("u", Some("x"), None), ("bad", "unsupported waitUntil value: x".to_owned()));
}

#[test]
fn paper_sizes_are_known() {
    let size = |format| pdf_paper_size(format).unwrap();
    assert_eq!(size("letter"), ("8.5", "11.0"));
    assert_eq!(size("legal"), ("8.5", "14.0"));
    assert_eq!(size("Tabloid"), ("11.0", "17.0"));
    assert_eq!(size("ledger"), ("11.0", "17.0"));
    assert_eq!(size("a0"), ("33.1", "46.8"));
    assert_eq!(size("a1"), ("23.4", "33.1"));
    assert_eq!(size("a2"), ("16.54", "23.4"));
    assert_eq!(size("a3"), ("11.7", "16.54"));
    assert_eq!(size(" A4 "), ("8.27", "11.7"));
    assert_eq!(size("a5"), ("5.83", "8.27"));
    assert_eq!(size("a6"), ("4.13", "5.83"));
    assert_eq!(
        words(pdf_paper_size("A7").unwrap_err()),
        ("bad", "unsupported pdf format: A7".to_owned())
    );
}

#[test]
fn pages_are_printed_as_asked() {
    let (_, last) = loaded(PageTask::Pdf(
        pdf_print_options(Some("letter"), Some(true), None).unwrap(),
    ));
    assert_eq!(last["method"], "Page.printToPDF");
    assert_eq!(last["params"]["landscape"], true);
    assert_eq!(last["params"]["printBackground"], false);
    assert_eq!(last["params"]["transferMode"], "ReturnAsBase64");
    assert_eq!(last["params"]["paperWidth"].as_f64(), Some(8.5));
    assert_eq!(last["params"]["paperHeight"].as_f64(), Some(11.0));
    let (mut job, last) = loaded(PageTask::Pdf(pdf_print_options(None, None, Some(true)).unwrap()));
    assert_eq!(last["params"].as_object().unwrap().len(), 3);
    assert_eq!(last["params"]["printBackground"], true);
    let data = base64::engine::general_purpose::STANDARD.encode(b"%PDF");
    match reply(&mut job, &format!(r#"{{"id":6,"result":{{"data":"{data}"}}}}"#)) {
        JobStep::Done(PageOutcome::Bytes(bytes)) => assert_eq!(bytes, b"%PDF"),
        other => panic!("{other:?}"),
    }
}

#[test]
fn pages_are_scraped() {
    let (mut job, last) = loaded(PageTask::Scrape);
    assert_eq!(last["id"], 6);
    assert_eq!(last["method"], "Runtime.evaluate");
    assert_eq!(last["sessionId"], "S");
    assert_eq!(last["params"]["returnByValue"], true);
    assert!(last["params"]["expression"].as_str().unwrap().contains("outerHTML"));
    let step = reply(
        &mut job,
        r#"{"id":6,"result":{"result":{"value":{"html":"<html>","title":"T","url":"U"}}}}"#,
    );
    match step {
        JobStep::Done(PageOutcome::Scraped(page)) => {
            assert_eq!((page.html.as_str(), page.title.as_str(), page.url.as_str()), ("<html>", "T", "U"));
        }
        other => panic!("{other:?}"),
    }
    assert!(matches!(reply(&mut job, "anything"), JobStep::Wait));
}

#[test]
fn events_count_only_after_the_navigation() {
    let (mut job, _) = job(PageTask::Scrape);
    let event = r#"{"method":"Page.lifecycleEvent","sessionId":"S","params":{"name":"load"}}"#;
    assert!(matches!(reply(&mut job, event), JobStep::Wait));
    reply(&mut job, r#"{"id":1,"result":{"targetId":"T"}}"#);
    reply(&mut job, r#"{"id":2,"result":{"sessionId":"S"}}"#);
    reply(&mut job, r#"{"id":3,"result":{}}"#);
    reply(&mut job, r#"{"id":4,"result":{}}"#);
    assert!(matches!(reply(&mut job, r#"{"id":5,"result":{}}"#), JobStep::AwaitLoad));
    let other = r#"{"method":"Page.lifecycleEvent","sessionId":"S","params":{"name":"init"}}"#;
    assert!(matches!(reply(&mut job, other), JobStep::Wait));
    let elsewhere = r#"{"method":"Page.lifecycleEvent","sessionId":"X","params":{"name":"load"}}"#;
    assert!(matches!(reply(&mut job, elsewhere), JobStep::Wait));
    assert_eq!(sent(reply(&mut job, r#"{"sessionId":"S"}"#))["method"], "Runtime.evaluate");
}

#[test]
fn a_page_that_loads_at_once_is_not_waited_for() {
    let mut job = navigated(PageTask::Scrape);
    let event = r#"{"method":"Page.lifecycleEvent","sessionId":"S","params":{"name":"load"}}"#;
    assert!(matches!(reply(&mut job, event), JobStep::Wait));
    let last = sent(reply(&mut job, r#"{"id":5,"result":{"frameId":"F"}}"#));
    assert_eq!(last["method"], "Runtime.evaluate");
}

#[test]
fn full_pages_are_measured_before_the_picture() {
    let task = PageTask::Screenshot { format: ScreenshotFormat::Jpeg, full_page: true };
    let (mut job, measure) = loaded(task);
    assert_eq!(measure["method"], "Page.getLayoutMetrics");
    let step = reply(
        &mut job,
        r#"{"id":6,"result":{"contentSize":{"width":1,"height":1},"cssContentSize":{"width":800.5,"height":6000}}}"#,
    );
    match step {
        JobStep::Round { width, height } => {
            assert_eq!((width.as_str(), height.as_str()), ("800.5", "6000"));
        }
        other => panic!("{other:?}"),
    }
    assert!(matches!(reply(&mut job, "{}"), JobStep::Wait));
    let resize = sent(job.on_size(801, 6000));
    assert_eq!(resize["method"], "Emulation.setDeviceMetricsOverride");
    assert_eq!(resize["params"]["width"], 801);
    assert_eq!(resize["params"]["screenHeight"], 6000);
    assert_eq!(resize["params"]["deviceScaleFactor"], 1);
    assert_eq!(resize["params"]["mobile"], false);
    let capture = sent(reply(&mut job, r#"{"id":7,"result":{}}"#));
    assert_eq!(capture["method"], "Page.captureScreenshot");
    assert_eq!(capture["params"]["format"], "jpeg");
    assert_eq!(capture["params"]["captureBeyondViewport"], true);
    assert_eq!(capture["params"]["fromSurface"], true);
    assert!(matches!(job.on_size(1, 1), JobStep::Wait));
    assert_eq!(job.timeout(), Span::from_secs(1));
}

#[test]
fn sizes_may_be_missing() {
    let task = PageTask::Screenshot { format: ScreenshotFormat::Png, full_page: true };
    let fails = |result: &str| {
        let (mut job, _) = loaded(task);
        failed(reply(&mut job, &format!(r#"{{"id":6,"result":{result}}}"#)))
    };
    assert_eq!(
        fails("{}"),
        ("invalid", "Page.getLayoutMetrics missing content size".to_owned())
    );
    assert_eq!(
        fails(r#"{"contentSize":{"height":1}}"#),
        ("invalid", "Page.getLayoutMetrics missing numeric width".to_owned())
    );
    assert_eq!(
        fails(r#"{"contentSize":{"width":1,"height":"x"}}"#),
        ("invalid", "Page.getLayoutMetrics missing numeric height".to_owned())
    );
}

#[test]
fn jobs_fail_at_each_stage() {
    let (mut first, _) = job(PageTask::Scrape);
    assert_eq!(
        failed(reply(&mut first, r#"{"id":1,"result":{}}"#)),
        ("invalid", "CDP result missing targetId".to_owned())
    );
    let (mut first, _) = job(PageTask::Scrape);
    assert_eq!(
        failed(first.on_event(SocketEvent::TimedOut)),
        ("timeout", "Target.createTarget".to_owned())
    );
    let (mut first, _) = job(PageTask::Scrape);
    assert_eq!(
        failed(first.on_event(SocketEvent::Closed)),
        ("protocol", "CDP websocket closed".to_owned())
    );
    let (mut first, _) = job(PageTask::Scrape);
    assert_eq!(
        failed(first.on_event(SocketEvent::Failed("io".to_owned()))),
        ("socket", "io".to_owned())
    );
    let (mut first, _) = job(PageTask::Scrape);
    assert!(matches!(first.on_event(SocketEvent::Other), JobStep::Wait));
    assert!(matches!(reply(&mut first, r#"{"id":9,"result":{}}"#), JobStep::Wait));
    assert_eq!(
        failed(reply(&mut first, r#"{"id":1,"error":{"code":-1}}"#)),
        ("protocol", r#"{"code":-1}"#.to_owned())
    );
    let (mut first, _) = job(PageTask::Scrape);
    assert_eq!(
        failed(reply(&mut first, "?")),
        ("protocol", "expected value at line 1 column 1".to_owned())
    );
    let (mut second, _) = job(PageTask::Scrape);
    reply(&mut second, r#"{"id":1,"result":{"targetId":"T"}}"#);
    assert_eq!(
        failed(reply(&mut second, r#"{"id":2,"result":{"sessionId":5}}"#)),
        ("invalid", "CDP result missing sessionId".to_owned())
    );
    let mut going = navigated(PageTask::Scrape);
    assert_eq!(
        failed(reply(&mut going, r#"{"id":5,"result":{"errorText":"net::ERR"}}"#)),
        ("protocol", "Page.navigate failed: net::ERR".to_owned())
    );
    let mut loading = navigated(PageTask::Scrape);
    reply(&mut loading, r#"{"id":5,"result":{}}"#);
    assert_eq!(
        failed(loading.on_event(SocketEvent::TimedOut)),
        ("timeout", "Page.lifecycleEvent".to_owned())
    );
    let (mut last, _) = loaded(PageTask::Scrape);
    assert_eq!(
        failed(reply(&mut last, r#"{"id":6,"result":{}}"#)),
        ("invalid", "Runtime.evaluate missing result.value".to_owned())
    );
}

#[test]
fn carried_data_is_decoded() {
    assert_eq!(decode_cdp_data(&json(r#"{"data":"aGVsbG8="}"#)).unwrap(), b"hello");
    assert_eq!(decode_cdp_data(&json(r#"{"data":""}"#)).unwrap(), b"");
    assert_eq!(
        words(decode_cdp_data(&json("{}")).unwrap_err()),
        ("invalid", "CDP result missing data".to_owned())
    );
    assert_eq!(
        words(decode_cdp_data(&json(r#"{"data":"a!b="}"#)).unwrap_err()),
        ("decode", "Invalid symbol 33, offset 1.".to_owned())
    );
    assert_eq!(decode_outcome(Ok(vec![1])).unwrap(), vec![1]);
    assert_eq!(words(decode_outcome(Err("w".to_owned())).unwrap_err()), ("decode", "w".to_owned()));
}

#[test]
fn results_are_read() {
    assert_eq!(required_string(&json(r#"{"a":"b"}"#), "a").unwrap(), "b");
    assert_eq!(
        words(required_string(&json(r#"{"a":1}"#), "a").unwrap_err()),
        ("invalid", "CDP result missing a".to_owned())
    );
    let size = json(r#"{"width":-5,"height":2.25}"#);
    assert_eq!(positive_dimension(&size, "width").unwrap(), "-5");
    assert_eq!(positive_dimension(&size, "height").unwrap(), "2.25");
    match finish_task(PageTask::Scrape, &json(r#"{"result":{"value":{}}}"#)) {
        Ok(PageOutcome::Scraped(page)) => assert_eq!(page.html, ""),
        other => panic!("{other:?}"),
    }
}

#[test]
fn connections_number_commands_and_note_events() {
    let mut connection = CdpConnection::connect();
    let command = || eiger::cdp::Command {
        session_id: Some("S".to_owned()),
        method: "Page.reload",
        params: Json::Object(Vec::new()),
    };
    assert_eq!(
        connection.command(command()),
        (1, r#"{"id":1,"method":"Page.reload","params":{},"sessionId":"S"}"#.to_owned())
    );
    assert_eq!(connection.command(command()).0, 2);
    let event = json(r#"{"method":"Page.lifecycleEvent","params":{"name":"networkIdle"}}"#);
    connection.record_lifecycle_event(&event);
    connection.record_lifecycle_event(&event);
    connection.record_lifecycle_event(&json(r#"{"method":"Other","params":{"name":"load"}}"#));
    assert!(connection.reached(WaitUntil::NetworkIdle));
    assert!(!connection.reached(WaitUntil::Load));
    connection.clear_events();
    assert!(!connection.reached(WaitUntil::NetworkIdle));
}

#[test]
fn jobs_go_on_with_what_was_read() {
    let (mut job, _) = job(PageTask::Scrape);
    let other = Message { body: json(r#"{"id":2,"result":{}}"#), error: None };
    assert!(matches!(job.on_message(other), JobStep::Wait));
    let answer = Message { body: json(r#"{"id":1,"result":{"targetId":"T"}}"#), error: None };
    assert_eq!(sent(job.on_message(answer))["params"]["targetId"], "T");
    let refused = Message { body: json(r#"{"id":2}"#), error: Some("no".to_owned()) };
    assert_eq!(failed(job.on_message(refused)), ("protocol", "no".to_owned()));
    let late = Message { body: json(r#"{"id":2}"#), error: Some("no".to_owned()) };
    assert!(matches!(job.on_message(late), JobStep::Wait));
}
