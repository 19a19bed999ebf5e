use eiger::api::{
    authorized, cdp_http_base_url, cdp_ws_url, clean_extension_paths, combine_wishes,
    devtools_url_from_ws, escape_html, parse_launch_query, parse_query_extension_paths, pool_error,
    read_launch, request_token, rest_endpoint_error, rest_session_overrides, session_devtools_link,
    session_overrides, sessions_page, target_devtools_link, trimmed_optional, ApiState,
    CdpTargetDescriptor, CreateSessionRequest, LaunchQuery, PdfRequest, RequestHeaders,
    ScrapeRequest, ScreenshotRequest, SessionQuery, SessionRow, PAGE_FOOT, PAGE_HEAD,
};
use eiger::browser::{BrowserError, BrowserReady, LaunchedBrowser};
use eiger::config::{AppConfig, Environment};
use eiger::json::Json;
use eiger::pool::{
    CapacityWait, CpuReading, PoolError, ResourceSample, SessionInfo, SessionPool, SessionState,
};
use eiger::rest::{PageTask, RestEndpointError, ScreenshotFormat, WaitUntil};
use eiger::span::{Now, Span, WallClock};

fn query() -> SessionQuery {
    SessionQuery {
        token: None,
        stealth: None,
        launch: None,
        proxy: None,
        extension_paths: None,
        persistent_profile_id: None,
    }
}

fn payload() -> CreateSessionRequest {
    CreateSessionRequest {
        stealth_enabled: None,
        extra_chrome_args: None,
        proxy: None,
        extension_paths: None,
        persistent_profile_id: None,
    }
}

fn headers() -> RequestHeaders {
    RequestHeaders { authorization: None, host: None, forwarded_proto: None }
}

fn launch(text: &str) -> SessionQuery {
    SessionQuery { launch: Some(text.to_owned()), ..query() }
}

fn state(vars: &[(&str, &str)]) -> ApiState {
    let env = Environment {
        vars: vars.iter().map(|var| (var.0.to_owned(), var.1.to_owned())).collect(),
    };
    let config = AppConfig::from_env(&env, true).unwrap();
    ApiState::new(SessionPool::from_config(&config), &config)
}

fn now(secs: u64) -> Now {
    Now {
        wall: WallClock { secs: secs as i64, nanos: 0 },
        ticks: secs as u128 * 1_000_000_000,
    }
}

fn browser(pid: u32) -> LaunchedBrowser {
    LaunchedBrowser {
        ready: BrowserReady {
            pid,
            http_base_url: "http://127.0.0.1:9222".to_owned(),
            browser_ws_url: "ws://127.0.0.1:9222/devtools/browser/abc".to_owned(),
        },
        close_timeout: Span::from_secs(3),
        terminate_timeout: Span::from_secs(2),
    }
}

fn with_session(vars: &[(&str, &str)], id: u128) -> ApiState {
    let mut state = state(vars);
    state.pool.begin_launch(CapacityWait::Granted).unwrap();
    state.pool.create_session(id, true, Ok(browser(42)), now(100)).unwrap();
    state
}

#[test]
fn parses_browserless_style_launch_query() {
    let query = SessionQuery {
        token: None,
        stealth: None,
        launch: Some(
            r#"{"args":["--window-size=1280,720"],"stealth":false,"proxy":"http://proxy.local:8080","extensionPaths":["/tmp/eiger-extension"]}"#.to_owned(),
        ),
        proxy: None,
        extension_paths: None,
        persistent_profile_id: None,
    };

    let overrides = session_overrides(&query, None).expect("valid launch query");

    assert_eq!(overrides.stealth_enabled, Some(false));
    assert_eq!(overrides.extra_chrome_args, vec!["--window-size=1280,720"]);
    assert_eq!(overrides.proxy.as_deref(), Some("http://proxy.local:8080"));
    assert_eq!(overrides.extension_paths, vec!["/tmp/eiger-extension"]);
}

#[test]
fn query_stealth_overrides_launch_stealth() {
    let query = SessionQuery {
        token: None,
        stealth: Some(true),
        launch: Some(r#"{"stealth":false}"#.to_owned()),
        proxy: None,
        extension_paths: None,
        persistent_profile_id: None,
    };

    let overrides = session_overrides(&query, None).expect("valid launch query");

    assert_eq!(overrides.stealth_enabled, Some(true));
}

#[test]
fn payload_proxy_overrides_query_proxy() {
    let query = SessionQuery {
        token: None,
        stealth: None,
        launch: None,
        proxy: Some("http://query-proxy.local:8080".to_owned()),
        extension_paths: None,
        persistent_profile_id: None,
    };
    let payload = CreateSessionRequest {
        stealth_enabled: None,
        extra_chrome_args: None,
        proxy: Some("http://payload-proxy.local:8080".to_owned()),
        extension_paths: None,
        persistent_profile_id: None,
    };

    let overrides = session_overrides(&query, Some(payload)).expect("valid overrides");

    assert_eq!(overrides.proxy.as_deref(), Some("http://payload-proxy.local:8080"));
}

#[test]
fn query_extension_paths_are_comma_separated() {
    let query = SessionQuery {
        token: None,
        stealth: None,
        launch: None,
        proxy: None,
        extension_paths: Some("/opt/eiger/one, /opt/eiger/two".to_owned()),
        persistent_profile_id: None,
    };

    let overrides = session_overrides(&query, None).expect("valid overrides");

    assert_eq!(overrides.extension_paths, vec!["/opt/eiger/one", "/opt/eiger/two"]);
}

#[test]
fn payload_profile_id_overrides_query_profile_id() {
    let query = SessionQuery {
        token: None,
        stealth: None,
        launch: None,
        proxy: None,
        extension_paths: None,
        persistent_profile_id: Some("query-profile".to_owned()),
    };
    let payload = CreateSessionRequest {
        stealth_enabled: None,
        extra_chrome_args: None,
        proxy: None,
        extension_paths: None,
        persistent_profile_id: Some("payload-profile".to_owned()),
    };

    let overrides = session_overrides(&query, Some(payload)).expect("valid overrides");

    assert_eq!(overrides.persistent_profile_id.as_deref(), Some("payload-profile"));
}

#[test]
fn cdp_url_can_carry_bearer_token_from_prewarm_request() {
    let headers = RequestHeaders {
        authorization: Some("Bearer secret".to_owned()),
        host: Some("eiger.local:3000".to_owned()),
        forwarded_proto: None,
    };
    let id = uuid::Uuid::nil().as_u128();
    let token = request_token(&headers, None);

    assert_eq!(
        cdp_ws_url(&headers, id, token.as_deref()),
        "ws://eiger.local:3000/sessions/00000000-0000-0000-0000-000000000000/cdp?token=secret"
    );
}

#[test]
fn launch_parameter_is_read_from_an_array() {
    let launch = parse_launch_query(Some(
        r#"[["--a"], true, " http://p ", ["/x", ""], "profile"]"#,
    ))
    .unwrap()
    .unwrap();
    assert_eq!(launch.args, Some(vec!["--a".to_owned()]));
    assert_eq!(launch.stealth, Some(true));
    assert_eq!(launch.proxy.as_deref(), Some(" http://p "));
    assert_eq!(launch.extension_paths, Some(vec!["/x".to_owned(), String::new()]));
    assert_eq!(launch.persistent_profile_id.as_deref(), Some("profile"));
}

#[test]
fn launch_parameter_may_be_blank_or_hold_unknown_members() {
    assert!(parse_launch_query(None).unwrap().is_none());
    assert!(parse_launch_query(Some(" \t")).unwrap().is_none());
    let launch = parse_launch_query(Some(r#"{"headless":true,"args":null}"#)).unwrap().unwrap();
    assert_eq!(launch.args, None);
    assert_eq!(launch.stealth, None);
}

#[test]
fn launch_parameter_errors_are_in_the_words_of_the_parser() {
    let words = |text: &str| parse_launch_query(Some(text)).unwrap_err();
    assert_eq!(
        words("{"),
        "invalid launch query JSON: EOF while parsing an object at line 1 column 1"
    );
    assert_eq!(
        words("null"),
        "invalid launch query shape: invalid type: null, expected struct LaunchQuery"
    );
    assert_eq!(
        words("true"),
        "invalid launch query shape: invalid type: boolean `true`, expected struct LaunchQuery"
    );
    assert_eq!(
        words("7"),
        "invalid launch query shape: invalid type: integer `7`, expected struct LaunchQuery"
    );
    assert_eq!(
        words("-7"),
        "invalid launch query shape: invalid type: integer `-7`, expected struct LaunchQuery"
    );
    assert_eq!(
        words("1.5"),
        "invalid launch query shape: invalid type: floating point `1.5`, expected struct LaunchQuery"
    );
    assert_eq!(
        words("\"x\""),
        "invalid launch query shape: invalid type: string \"x\", expected struct LaunchQuery"
    );
    assert_eq!(
        words(r#"{"args":"x"}"#),
        "invalid launch query shape: invalid type: string \"x\", expected a sequence"
    );
    assert_eq!(
        words(r#"{"args":[1]}"#),
        "invalid launch query shape: invalid type: integer `1`, expected a string"
    );
    assert_eq!(
        words(r#"{"stealth":"yes"}"#),
        "invalid launch query shape: invalid type: string \"yes\", expected a boolean"
    );
    assert_eq!(
        words(r#"{"proxy":1}"#),
        "invalid launch query shape: invalid type: integer `1`, expected a string"
    );
    assert_eq!(
        words(r#"{"extensionPaths":[1]}"#),
        "invalid launch query shape: invalid type: integer `1`, expected path string"
    );
    assert_eq!(
        words("[]"),
        "invalid launch query shape: invalid length 0, expected struct LaunchQuery with 5 elements"
    );
    assert_eq!(
        words("[null,null,null,null]"),
        "invalid launch query shape: invalid length 4, expected struct LaunchQuery with 5 elements"
    );
    assert_eq!(
        words("[null,null,null,null,null,null]"),
        "invalid launch query shape: invalid length 6, expected fewer elements in array"
    );
}

#[test]
fn launch_parameter_is_read_from_a_value() {
    let value = Json::Object(vec![
        ("args".to_owned(), Json::Null),
        ("args".to_owned(), Json::Array(vec![Json::Text("--a".to_owned())])),
        ("proxy".to_owned(), Json::Text("p".to_owned())),
    ]);
    let launch = read_launch(&value).unwrap();
    assert_eq!(launch.args, Some(vec!["--a".to_owned()]));
    assert_eq!(launch.proxy.as_deref(), Some("p"));
    assert_eq!(launch.stealth, None);
    let words = read_launch(&Json::Array(vec![Json::Null, Json::Unsigned(1)])).unwrap_err();
    assert_eq!(words, "invalid type: integer `1`, expected a boolean");
    assert_eq!(
        read_launch(&Json::Unsigned(1)).unwrap_err(),
        "invalid type: integer `1`, expected struct LaunchQuery"
    );
}

#[test]
fn launch_parameter_reports_the_first_member_in_order_of_names() {
    let words = parse_launch_query(Some(r#"{"stealth":1,"proxy":2,"args":3}"#)).unwrap_err();
    assert_eq!(
        words,
        "invalid launch query shape: invalid type: integer `3`, expected a sequence"
    );
}

#[test]
fn wishes_of_body_address_and_launch_parameter_are_combined() {
    let query = SessionQuery {
        stealth: Some(true),
        proxy: Some("  ".to_owned()),
        extension_paths: Some(" , ".to_owned()),
        persistent_profile_id: Some(" address ".to_owned()),
        ..query()
    };
    let launch = LaunchQuery {
        args: Some(vec!["--launch".to_owned()]),
        stealth: Some(false),
        proxy: Some(" http://launch ".to_owned()),
        extension_paths: Some(vec![String::new(), "/launch".to_owned()]),
        persistent_profile_id: Some("launch".to_owned()),
    };
    let body = CreateSessionRequest {
        stealth_enabled: None,
        extra_chrome_args: Some(vec!["--body".to_owned()]),
        extension_paths: Some(vec![String::new()]),
        ..payload()
    };
    let wanted = combine_wishes(&query, Some(launch), Some(body));
    assert_eq!(wanted.stealth_enabled, Some(true));
    assert_eq!(wanted.extra_chrome_args, vec!["--launch", "--body"]);
    assert_eq!(wanted.proxy.as_deref(), Some("http://launch"));
    assert_eq!(wanted.extension_paths, vec!["/launch"]);
    assert_eq!(wanted.persistent_profile_id.as_deref(), Some("address"));
}

#[test]
fn session_overrides_hand_on_launch_errors() {
    assert_eq!(
        session_overrides(&launch("[]"), None).unwrap_err(),
        "invalid launch query shape: invalid length 0, expected struct LaunchQuery with 5 elements"
    );
}

#[test]
fn page_requests_may_want_things_of_their_session() {
    let wanted =
        rest_session_overrides(&query(), Some(" http://p ".to_owned()), None, None).unwrap();
    assert_eq!(wanted.proxy.as_deref(), Some("http://p"));
    assert!(wanted.extra_chrome_args.is_empty());
    let wanted = rest_session_overrides(&query(), None, None, None).unwrap();
    assert_eq!(wanted.proxy, None);
    assert_eq!(wanted.stealth_enabled, None);
}

#[test]
fn small_readers_trim_and_drop() {
    assert_eq!(trimmed_optional(Some(" a ")).as_deref(), Some("a"));
    assert_eq!(trimmed_optional(Some("   ")), None);
    assert_eq!(trimmed_optional(None), None);
    assert_eq!(parse_query_extension_paths(Some("a,, b")), vec!["a", "b"]);
    assert!(parse_query_extension_paths(None).is_empty());
    assert_eq!(
        clean_extension_paths(&vec![String::new(), " ".to_owned(), "b".to_owned()]),
        vec![" ", "b"]
    );
}

#[test]
fn only_the_expected_token_is_let_through() {
    let bearer = |value: &str| RequestHeaders {
        authorization: Some(value.to_owned()),
        ..headers()
    };
    assert!(authorized(None, &headers(), None));
    assert!(authorized(None, &headers(), Some("x")));
    assert!(!authorized(Some("s"), &headers(), None));
    assert!(authorized(Some("s"), &headers(), Some("s")));
    assert!(!authorized(Some("s"), &headers(), Some("t")));
    assert!(authorized(Some("s"), &bearer("Bearer s"), None));
    assert!(authorized(Some("s"), &bearer("Bearer s"), Some("t")));
    assert!(!authorized(Some("s"), &bearer("bearer s"), None));
    assert!(!authorized(Some("s"), &bearer("s"), None));
    assert_eq!(request_token(&bearer("Bearer s"), Some("q")).as_deref(), Some("q"));
    assert_eq!(request_token(&bearer("Bearer s"), None).as_deref(), Some("s"));
    assert_eq!(request_token(&bearer("Basic s"), None), None);
}

#[test]
fn session_addresses_follow_the_headers() {
    let id = 0x0123_4567_89ab_cdef_0123_4567_89ab_cdef;
    assert_eq!(
        cdp_ws_url(&headers(), id, None),
        "ws://127.0.0.1:3000/sessions/01234567-89ab-cdef-0123-456789abcdef/cdp"
    );
    let secure = RequestHeaders { forwarded_proto: Some("HTTPS".to_owned()), ..headers() };
    assert_eq!(
        cdp_ws_url(&secure, id, Some("a b&c=d/é~")),
        "wss://127.0.0.1:3000/sessions/01234567-89ab-cdef-0123-456789abcdef/cdp?token=a%20b%26c%3Dd%2F%C3%A9~"
    );
}

#[test]
fn html_is_escaped() {
    assert_eq!(escape_html("<a href=\"x\">&</a>"), "&lt;a href=&quot;x&quot;&gt;&amp;&lt;/a&gt;");
    assert_eq!(escape_html("'plain'"), "'plain'");
}

#[test]
fn developer_tools_are_linked() {
    let ws = "ws://127.0.0.1:9222/devtools/browser/abc";
    assert_eq!(cdp_http_base_url(ws).as_deref(), Some("http://127.0.0.1:9222"));
    assert_eq!(
        cdp_http_base_url("wss://h/devtools/browser/abc").as_deref(),
        Some("http://h")
    );
    assert_eq!(cdp_http_base_url("http://h/devtools/x"), None);
    assert_eq!(cdp_http_base_url("ws://h/other"), None);
    assert_eq!(
        devtools_url_from_ws(ws).as_deref(),
        Some("devtools://devtools/bundled/inspector.html?ws=127.0.0.1:9222/devtools/browser/abc")
    );
    assert_eq!(devtools_url_from_ws("x"), None);
    let target = |kind: &str, url: Option<&str>| CdpTargetDescriptor {
        target_type: kind.to_owned(),
        devtools_frontend_url: url.map(|url| url.to_owned()),
    };
    let targets = vec![
        target("worker", Some("/x?ws=worker")),
        target("page", Some("/devtools/inspector.html?ws=127.0.0.1/page/1")),
        target("page", Some("?ws=second")),
    ];
    let link = "devtools://devtools/bundled/inspector.html?ws=127.0.0.1/page/1";
    assert_eq!(target_devtools_link(&targets).as_deref(), Some(link));
    assert_eq!(target_devtools_link(&vec![target("page", None)]), None);
    assert_eq!(target_devtools_link(&vec![target("page", Some("none"))]), None);
    assert_eq!(session_devtools_link(Some(ws), &Some(targets)).as_deref(), Some(link));
    assert_eq!(
        session_devtools_link(Some(ws), &None).as_deref(),
        Some("devtools://devtools/bundled/inspector.html?ws=127.0.0.1:9222/devtools/browser/abc")
    );
    assert_eq!(session_devtools_link(None, &None), None);
}

fn info() -> SessionInfo {
    SessionInfo {
        id: 1,
        state: SessionState::InUse,
        pid: Some(7),
        browser_ws_url: None,
        created_at: WallClock { secs: 0, nanos: 0 },
        last_used_at: WallClock { secs: 0, nanos: 0 },
        age_seconds: 12,
        idle_seconds: 3,
        rss_bytes: Some(99),
        cpu_percent: Some(CpuReading { shown: "1.25".to_owned(), rounded: "1.2".to_owned() }),
        process_count: Some(2),
        kill_reason: None,
    }
}

#[test]
fn sessions_are_shown_on_a_page() {
    let rows = vec![
        SessionRow { info: info(), devtools: Some("devtools://a\"b".to_owned()) },
        SessionRow {
            info: SessionInfo { rss_bytes: None, cpu_percent: None, pid: None, ..info() },
            devtools: None,
        },
    ];
    let expected = format!(
        "{}{}{}{}",
        PAGE_HEAD,
        "<tr><td>00000000-0000-0000-0000-000000000001</td><td>in_use</td><td>12</td><td>3</td><td>99</td><td>1.2</td><td>7</td><td><a href=\"devtools://a&quot;b\">devtools</a></td></tr>",
        "<tr><td>00000000-0000-0000-0000-000000000001</td><td>in_use</td><td>12</td><td>3</td><td></td><td></td><td></td><td><a href=\"#\">devtools</a></td></tr>",
        PAGE_FOOT,
    );
    assert_eq!(sessions_page(&rows), expected);
    assert!(PAGE_HEAD.starts_with("<!doctype html>"));
}

#[test]
fn pool_errors_are_answered() {
    let answer = |error: PoolError| {
        let reply = pool_error(&error);
        (reply.status, reply.error)
    };
    assert_eq!(
        answer(PoolError::AtCapacity),
        (503, "session pool is at capacity".to_owned())
    );
    assert_eq!(
        answer(PoolError::CapacityTimeout),
        (503, "timed out waiting for browser capacity".to_owned())
    );
    assert_eq!(answer(PoolError::PersistentProfilesDisabled).0, 400);
    assert_eq!(
        answer(PoolError::InvalidPersistentProfileId("a/b".to_owned())),
        (400, "invalid persistent profile id: a/b".to_owned())
    );
    assert_eq!(
        answer(PoolError::NotFound(0)),
        (404, "session not found: 00000000-0000-0000-0000-000000000000".to_owned())
    );
    assert_eq!(
        answer(PoolError::NotConnectable(u128::MAX)),
        (409, "session is not connectable: ffffffff-ffff-ffff-ffff-ffffffffffff".to_owned())
    );
    assert_eq!(
        answer(PoolError::Browser(BrowserError::LaunchTimeout(Span::from_millis(1500)))),
        (500, "browser launch failed: chrome did not expose CDP within 1.5s".to_owned())
    );
}

#[test]
fn page_errors_are_answered() {
    let answer = |error: RestEndpointError| {
        let reply = rest_endpoint_error(error);
        (reply.status, reply.error)
    };
    assert_eq!(answer(RestEndpointError::BadRequest("b".to_owned())), (400, "b".to_owned()));
    assert_eq!(answer(RestEndpointError::Pool(PoolError::AtCapacity)).0, 503);
    assert_eq!(
        answer(RestEndpointError::CdpTimeout("Page.navigate")),
        (504, "Page.navigate timed out".to_owned())
    );
    assert_eq!(
        answer(RestEndpointError::CdpWebSocket("w".to_owned())),
        (502, "CDP websocket failed: w".to_owned())
    );
    assert_eq!(
        answer(RestEndpointError::CdpProtocol("p".to_owned())),
        (502, "CDP command failed: p".to_owned())
    );
    assert_eq!(
        answer(RestEndpointError::InvalidCdpResponse("i".to_owned())),
        (502, "i".to_owned())
    );
    assert_eq!(
        answer(RestEndpointError::Decode("d".to_owned())),
        (502, "CDP base64 decode failed: d".to_owned())
    );
}

#[test]
fn every_request_is_refused_without_the_token() {
    let vars = [("EIGER_TOKEN", "secret")];
    let mut state = with_session(&vars, 5);
    let (headers, query) = (headers(), query());
    assert_eq!(state.check(&headers, &query).unwrap_err().status, 401);
    assert_eq!(state.create_session(&headers, &query, None).unwrap_err().status, 401);
    assert_eq!(state.connect_new_session(&headers, &query).unwrap_err().error, "unauthorized");
    assert_eq!(
        state.list_sessions(&headers, &query, &Vec::new(), now(101)).unwrap_err().status,
        401
    );
    assert_eq!(
        state.view_sessions(&headers, &query, &Vec::new(), &Vec::new(), now(101)).unwrap_err().status,
        401
    );
    assert_eq!(state.get_session(&headers, &query, 5, None, now(101)).unwrap_err().status, 401);
    assert_eq!(state.metrics(&headers, &query, &Vec::new(), now(101)).unwrap_err().status, 401);
    assert_eq!(state.delete_session(&headers, &query, 5).unwrap_err().status, 401);
    assert_eq!(
        state.connect_existing_session(&headers, &query, 5, now(101)).unwrap_err().status,
        401
    );
    assert_eq!(state.scrape(&headers, &query, scrape_request("u")).unwrap_err().status, 401);
    let allowed = SessionQuery { token: Some("secret".to_owned()), ..query.clone() };
    assert!(state.check(&headers, &allowed).is_ok());
    assert_eq!(state.get_session(&headers, &allowed, 5, None, now(101)).unwrap().id, 5);
}

fn scrape_request(url: &str) -> ScrapeRequest {
    ScrapeRequest {
        url: url.to_owned(),
        wait_until: None,
        timeout_ms: None,
        proxy: None,
        extension_paths: None,
        persistent_profile_id: None,
    }
}

#[test]
fn sessions_are_planned_created_and_reported() {
    let state = with_session(&[("EIGER_TOKEN", "s t")], 9);
    let query = SessionQuery {
        token: Some("s t".to_owned()),
        proxy: Some("http://p".to_owned()),
        ..query()
    };
    let plan = state.create_session(&headers(), &query, None).unwrap();
    assert_eq!(plan.options.proxy.as_deref(), Some("http://p"));
    assert_eq!(plan.profile_dir, None);
    assert!(state.connect_new_session(&headers(), &query).is_ok());
    let refused = SessionQuery { persistent_profile_id: Some("p".to_owned()), ..query.clone() };
    assert_eq!(state.create_session(&headers(), &refused, None).unwrap_err().status, 400);
    let broken = SessionQuery { launch: Some("{".to_owned()), ..query.clone() };
    assert_eq!(state.create_session(&headers(), &broken, None).unwrap_err().status, 400);
    let mut pool = state.pool;
    let handle = pool.connect_session(9, now(105)).unwrap();
    let state = ApiState { pool, token: state.token };
    let reply = state.created_session(&headers(), &query, &handle, now(200));
    assert_eq!(reply.id, 9);
    assert_eq!(reply.pid, 42);
    assert_eq!(reply.created_at, WallClock { secs: 100, nanos: 0 });
    assert_eq!(
        reply.cdp_ws_url,
        "ws://127.0.0.1:3000/sessions/00000000-0000-0000-0000-000000000009/cdp?token=s%20t"
    );
    let mut state = state;
    state.delete_session(&headers(), &query, 9).unwrap();
    let reply = state.created_session(&headers(), &query, &handle, now(200));
    assert_eq!(reply.created_at, WallClock { secs: 200, nanos: 0 });
}

#[test]
fn readiness_has_a_status() {
    let state = state(&[]);
    let (status, readiness) = state.ready();
    assert_eq!(status, 503);
    assert_eq!(readiness.status, "not_ready");
    let (status, readiness) = with_session(&[], 1).ready();
    assert_eq!(status, 200);
    assert!(readiness.can_accept_sessions);
    assert_eq!(readiness.available_capacity, 3);
    let (status, _) = with_session(&[("EIGER_MAX_CONCURRENT_SESSIONS", "1")], 1).ready();
    assert_eq!(status, 503);
}

#[test]
fn sessions_are_deleted_once() {
    let mut state = with_session(&[], 3);
    let entry = state.delete_session(&headers(), &query(), 3).unwrap();
    assert_eq!(entry.kill_reason.as_deref(), Some("delete requested"));
    let error = state.delete_session(&headers(), &query(), 3).unwrap_err();
    assert_eq!((error.status, error.error.as_str()), (404, "session not found"));
    let error = state.get_session(&headers(), &query(), 3, None, now(1)).unwrap_err();
    assert_eq!((error.status, error.error.as_str()), (404, "session not found"));
    let error = state.connect_existing_session(&headers(), &query(), 3, now(1)).unwrap_err();
    assert_eq!(error.status, 404);
}

#[test]
fn a_session_is_connected_to_once() {
    let mut state = with_session(&[], 3);
    let handle = state.connect_existing_session(&headers(), &query(), 3, now(150)).unwrap();
    assert_eq!(handle.id(), 3);
    let error = state.connect_existing_session(&headers(), &query(), 3, now(151)).unwrap_err();
    assert_eq!(error.status, 409);
}

#[test]
fn sessions_are_listed_measured_and_shown() {
    let state = with_session(&[], 3);
    let samples = vec![(
        42u32,
        ResourceSample {
            rss_bytes: 1000,
            cpu: CpuReading { shown: "2.5".to_owned(), rounded: "2.5".to_owned() },
            process_count: 4,
        },
    )];
    let listed = state.list_sessions(&headers(), &query(), &samples, now(160)).unwrap();
    assert_eq!(listed.len(), 1);
    assert_eq!(listed[0].age_seconds, 60);
    assert_eq!(listed[0].rss_bytes, Some(1000));
    let text = state.metrics(&headers(), &query(), &samples, now(160)).unwrap();
    assert!(text.contains("eiger_sessions_created_total 1\n"));
    assert!(text.contains(
        "eiger_session_cpu_percent{session=\"00000000-0000-0000-0000-000000000003\",state=\"ready\"} 2.5\n"
    ));
    let links = vec![(3u128, "devtools://x".to_owned())];
    let page = state.view_sessions(&headers(), &query(), &samples, &links, now(160)).unwrap();
    assert!(page.contains("<td>ready</td><td>60</td><td>60</td><td>1000</td><td>2.5</td><td>42</td>"));
    assert!(page.contains("<a href=\"devtools://x\">"));
}

#[test]
fn page_requests_become_jobs() {
    let state = state(&[]);
    let request = state.scrape(&headers(), &query(), scrape_request(" http://e ")).unwrap();
    assert_eq!(request.options.url, "http://e");
    assert_eq!(request.options.wait_until, WaitUntil::Load);
    assert_eq!(request.options.timeout, Span::from_millis(30_000));
    assert!(matches!(request.task, PageTask::Scrape));
    let screenshot = |format: &str| ScreenshotRequest {
        url: "u".to_owned(),
        wait_until: Some("networkidle2".to_owned()),
        timeout_ms: Some(5),
        full_page: Some(true),
        format: Some(format.to_owned()),
        proxy: Some("p".to_owned()),
        extension_paths: None,
        persistent_profile_id: None,
    };
    let request = state.screenshot(&headers(), &query(), screenshot("JPG")).unwrap();
    assert!(matches!(
        request.task,
        PageTask::Screenshot { format: ScreenshotFormat::Jpeg, full_page: true }
    ));
    assert_eq!(request.options.wait_until, WaitUntil::NetworkAlmostIdle);
    assert_eq!(request.plan.options.proxy.as_deref(), Some("p"));
    let error = state.screenshot(&headers(), &query(), screenshot("gif")).unwrap_err();
    assert_eq!((error.status, error.error.as_str()), (400, "unsupported screenshot format: gif"));
    let pdf = |url: &str, format: Option<&str>| PdfRequest {
        url: url.to_owned(),
        wait_until: None,
        timeout_ms: None,
        format: format.map(|format| format.to_owned()),
        landscape: Some(true),
        print_background: None,
        proxy: None,
        extension_paths: None,
        persistent_profile_id: None,
    };
    let request = state.pdf(&headers(), &query(), pdf("u", Some("A4"))).unwrap();
    assert!(matches!(request.task, PageTask::Pdf(_)));
    let error = state.pdf(&headers(), &query(), pdf("u", Some("b5"))).unwrap_err();
    assert_eq!((error.status, error.error.as_str()), (400, "unsupported pdf format: b5"));
    let error = state.pdf(&headers(), &query(), pdf(" ", None)).unwrap_err();
    assert_eq!((error.status, error.error.as_str()), (400, "url is required"));
    let error = state.scrape(&headers(), &launch("{"), scrape_request("u")).unwrap_err();
    assert_eq!(error.status, 400);
}
