use eiger::browser::{
    cdp_command, cdp_command_answer, chrome_args, command_outcome, health_check_browser_ws, launch_chrome,
    read_devtools_port, resolve_chrome_executable, terminate_child, wait_until_ready,
    BrowserDriver, BrowserError, BrowserReady, ChromeLaunchOptions, CleanUpStep, ExecutableProbe,
    LaunchEvent, LaunchStep, LaunchedBrowser, PortFile, ShutdownEvent, ShutdownKind, ShutdownStep,
    SocketEvent, TargetDescriptor, VersionReply, WaitEvent, WaitStep,
};
use eiger::cdp::Command;
use eiger::json::{parse_message, Json, Message};
use eiger::span::Span;
use eiger::stealth::{StealthProfile, BASELINE_SCRIPT};

fn options() -> ChromeLaunchOptions {
    ChromeLaunchOptions {
        executable: None,
        no_sandbox: false,
        launch_timeout: Span::from_secs(10),
        close_timeout: Span::from_secs(3),
        terminate_timeout: Span::from_secs(2),
        additional_args: Vec::new(),
        proxy: None,
        extension_paths: Vec::new(),
        stealth: StealthProfile::new(false, None),
    }
}

fn launched() -> LaunchedBrowser {
    LaunchedBrowser {
        ready: BrowserReady {
            pid: 42,
            http_base_url: "http://127.0.0.1:9222".to_owned(),
            browser_ws_url: "ws://127.0.0.1:9222/devtools/browser/abc".to_owned(),
        },
        close_timeout: Span::from_secs(3),
        terminate_timeout: Span::from_secs(2),
    }
}

fn probe() -> ExecutableProbe {
    ExecutableProbe {
        variables: vec![None, None, None],
        existing: vec![false; 6],
        on_path: vec![false; 5],
    }
}

#[test]
fn chrome_args_include_resource_saving_defaults() {
    let options = ChromeLaunchOptions {
        executable: None,
        no_sandbox: true,
        launch_timeout: Span::from_secs(10),
        close_timeout: Span::from_secs(3),
        terminate_timeout: Span::from_secs(2),
        additional_args: Vec::new(),
        proxy: Some("http://proxy.local:8080".to_owned()),
        extension_paths: Vec::new(),
        stealth: StealthProfile::new(true, None),
    };

    let temp_dir = tempfile::tempdir().unwrap();
    let args = chrome_args(&temp_dir.path().display().to_string(), &options);

    assert!(args.contains(&"--remote-debugging-port=0".to_owned()));
    assert!(args.contains(&"--disable-dev-shm-usage".to_owned()));
    assert!(args.contains(&"--no-sandbox".to_owned()));
    assert!(args.contains(&"--proxy-server=http://proxy.local:8080".to_owned()));
    assert!(!args.contains(&"--enable-automation".to_owned()));
}

#[test]
fn chrome_args_omit_proxy_when_unset() {
    let options = ChromeLaunchOptions {
        executable: None,
        no_sandbox: false,
        launch_timeout: Span::from_secs(10),
        close_timeout: Span::from_secs(3),
        terminate_timeout: Span::from_secs(2),
        additional_args: Vec::new(),
        proxy: None,
        extension_paths: Vec::new(),
        stealth: StealthProfile::new(false, None),
    };

    let temp_dir = tempfile::tempdir().unwrap();
    let args = chrome_args(&temp_dir.path().display().to_string(), &options);

    assert!(!args.iter().any(|arg| arg.starts_with("--proxy-server=")));
}

#[test]
fn the_whole_command_line_is_in_order() {
    let options = ChromeLaunchOptions {
        additional_args: vec!["--one".to_owned(), "--two".to_owned()],
        proxy: Some("  ".to_owned()),
        ..options()
    };
    assert_eq!(
        chrome_args("/p", &options),
        vec![
            "--headless=new",
            "--remote-debugging-address=127.0.0.1",
            "--remote-debugging-port=0",
            "--user-data-dir=/p",
            "--no-first-run",
            "--no-default-browser-check",
            "--disable-background-networking",
            "--disable-background-timer-throttling",
            "--disable-client-side-phishing-detection",
            "--disable-component-update",
            "--disable-default-apps",
            "--disable-dev-shm-usage",
            "--disable-extensions",
            "--disable-gpu",
            "--disable-hang-monitor",
            "--disable-popup-blocking",
            "--disable-prompt-on-repost",
            "--disable-sync",
            "--metrics-recording-only",
            "--mute-audio",
            "--password-store=basic",
            "--use-mock-keychain",
            "--one",
            "--two",
            "about:blank",
        ]
    );
}

#[test]
fn extensions_are_loaded_where_there_are_any() {
    let options = ChromeLaunchOptions {
        extension_paths: vec!["/a".to_owned(), "/b".to_owned()],
        ..options()
    };
    let args = chrome_args("/p", &options);
    assert!(!args.contains(&"--disable-extensions".to_owned()));
    assert!(args.contains(&"--disable-extensions-except=/a,/b".to_owned()));
    assert!(args.contains(&"--load-extension=/a,/b".to_owned()));
}

#[test]
fn executables_are_looked_for_in_order() {
    assert_eq!(resolve_chrome_executable(Some("/mine"), &probe()).unwrap(), "/mine");
    let named = ExecutableProbe {
        variables: vec![None, Some(" ".to_owned()), Some("/named".to_owned())],
        existing: vec![true; 6],
        ..probe()
    };
    assert_eq!(resolve_chrome_executable(None, &named).unwrap(), "/named");
    let found = ExecutableProbe {
        existing: vec![false, false, true, true, false, false],
        on_path: vec![true; 5],
        ..probe()
    };
    assert_eq!(resolve_chrome_executable(None, &found).unwrap(), "/usr/bin/google-chrome");
    let on_path = ExecutableProbe {
        on_path: vec![false, false, false, false, true],
        ..probe()
    };
    assert_eq!(resolve_chrome_executable(None, &on_path).unwrap(), "chrome");
    assert!(matches!(
        resolve_chrome_executable(None, &probe()),
        Err(BrowserError::MissingExecutable)
    ));
}

#[test]
fn the_port_is_in_the_first_line() {
    assert_eq!(read_devtools_port("9222\n/devtools/browser/x".to_owned()).unwrap(), 9222);
    assert_eq!(read_devtools_port("9222\r\nx".to_owned()).unwrap(), 9222);
    assert_eq!(read_devtools_port("+1".to_owned()).unwrap(), 1);
    assert_eq!(read_devtools_port("65535\n".to_owned()).unwrap(), 65535);
    for bad in ["", "\n9222", "65536", " 9222", "9222\r", "x"] {
        match read_devtools_port(bad.to_owned()) {
            Err(BrowserError::InvalidDevtoolsPort(contents)) => assert_eq!(contents, bad),
            other => panic!("{other:?}"),
        }
    }
}

#[test]
fn a_launch_goes_through_its_steps() {
    let options = ChromeLaunchOptions {
        executable: Some("/chrome".to_owned()),
        stealth: StealthProfile::new(true, None),
        ..options()
    };
    match launch_chrome(&options, LaunchEvent::Probed(probe())) {
        LaunchStep::MakeProfile { executable } => assert_eq!(executable, "/chrome"),
        other => panic!("{other:?}"),
    }
    let profile = LaunchEvent::Profile {
        executable: "/chrome".to_owned(),
        user_data_dir: Ok("/profile".to_owned()),
    };
    match launch_chrome(&options, profile) {
        LaunchStep::Spawn { executable, args } => {
            assert_eq!(executable, "/chrome");
            assert_eq!(args, chrome_args("/profile", &options));
        }
        other => panic!("{other:?}"),
    }
    let spawned = |outcome| LaunchEvent::Spawned { executable: "/chrome".to_owned(), outcome };
    assert!(matches!(
        launch_chrome(&options, spawned(Ok(Some(7)))),
        LaunchStep::Wait { pid: 7 }
    ));
    match launch_chrome(&options, LaunchEvent::Waited(Ok(launched().ready))) {
        LaunchStep::Launched { browser, disguise } => {
            assert!(disguise);
            assert_eq!(browser.pid(), 42);
            assert_eq!(browser.http_base_url(), "http://127.0.0.1:9222");
            assert_eq!(browser.browser_ws_url(), "ws://127.0.0.1:9222/devtools/browser/abc");
            assert_eq!(browser.terminate_timeout, Span::from_secs(2));
        }
        other => panic!("{other:?}"),
    }
}

#[test]
fn a_launch_fails_at_each_step() {
    let failed = |event| match launch_chrome(&options(), event) {
        LaunchStep::Failed(error) => error.message(),
        LaunchStep::CleanUp(error) => format!("clean up: {}", error.message()),
        other => panic!("{other:?}"),
    };
    assert_eq!(
        failed(LaunchEvent::Probed(probe())),
        "chrome executable could not be resolved; set EIGER_CHROME_EXECUTABLE"
    );
    assert_eq!(
        failed(LaunchEvent::Profile {
            executable: "/c".to_owned(),
            user_data_dir: Err("disk full".to_owned()),
        }),
        "failed to read DevToolsActivePort: disk full"
    );
    let spawned = |outcome| LaunchEvent::Spawned { executable: "/c".to_owned(), outcome };
    assert_eq!(
        failed(spawned(Err("no such file".to_owned()))),
        "failed to spawn chrome at /c: no such file"
    );
    assert_eq!(
        failed(spawned(Ok(None))),
        "chrome executable could not be resolved; set EIGER_CHROME_EXECUTABLE"
    );
    assert_eq!(
        failed(LaunchEvent::Waited(Err(BrowserError::LaunchTimeout(Span::from_secs(10))))),
        "clean up: chrome did not expose CDP within 10s"
    );
}

#[test]
fn errors_have_words() {
    let words = |error: BrowserError| error.message();
    assert_eq!(
        words(BrowserError::ExitedEarly("exit status: 1".to_owned())),
        "chrome exited before CDP became ready: exit status: 1"
    );
    assert_eq!(
        words(BrowserError::InvalidDevtoolsPort("x".to_owned())),
        "invalid DevToolsActivePort contents: x"
    );
    assert_eq!(words(BrowserError::Http("h".to_owned())), "CDP HTTP request failed: h");
    assert_eq!(words(BrowserError::WebSocket("w".to_owned())), "CDP websocket failed: w");
    assert_eq!(words(BrowserError::CdpTimeout("M")), "CDP command timed out: M");
    assert_eq!(words(BrowserError::CdpCommand("c".to_owned())), "CDP command failed: c");
    assert_eq!(
        words(BrowserError::LaunchTimeout(Span::from_millis(250))),
        "chrome did not expose CDP within 250ms"
    );
}

#[test]
fn waiting_goes_round_until_the_browser_answers() {
    let step = |event| wait_until_ready(42, Span::from_secs(10), event);
    assert!(matches!(step(WaitEvent::Round(9_999_999_999)), WaitStep::AskChild));
    assert!(matches!(step(WaitEvent::Child(None)), WaitStep::ReadPortFile));
    assert!(matches!(step(WaitEvent::PortFile(PortFile::Missing)), WaitStep::Pause));
    match step(WaitEvent::PortFile(PortFile::Contents("9222\n".to_owned()))) {
        WaitStep::AskVersion { http_base_url } => {
            assert_eq!(http_base_url, "http://127.0.0.1:9222")
        }
        other => panic!("{other:?}"),
    }
    let version = |reply| WaitEvent::Version { http_base_url: "h".to_owned(), reply };
    assert!(matches!(step(version(VersionReply::Unavailable)), WaitStep::Pause));
    match step(version(VersionReply::Socket("ws".to_owned()))) {
        WaitStep::TryHealth { http_base_url, browser_ws_url } => {
            assert_eq!(http_base_url, "h");
            assert_eq!(browser_ws_url, "ws");
        }
        other => panic!("{other:?}"),
    }
    let health = |outcome| WaitEvent::Health {
        http_base_url: "h".to_owned(),
        browser_ws_url: "ws".to_owned(),
        outcome,
    };
    match step(health(Ok(()))) {
        WaitStep::Ready(ready) => {
            assert_eq!((ready.pid, ready.http_base_url.as_str()), (42, "h"));
            assert_eq!(ready.browser_ws_url, "ws");
        }
        other => panic!("{other:?}"),
    }
}

#[test]
fn waiting_fails_for_each_reason() {
    let failed = |event| match wait_until_ready(42, Span::from_secs(10), event) {
        WaitStep::Failed(error) => error.message(),
        other => panic!("{other:?}"),
    };
    assert_eq!(
        failed(WaitEvent::Round(10_000_000_000)),
        "chrome did not expose CDP within 10s"
    );
    assert_eq!(
        failed(WaitEvent::Child(Some("signal: 9".to_owned()))),
        "chrome exited before CDP became ready: signal: 9"
    );
    assert_eq!(
        failed(WaitEvent::PortFile(PortFile::Unreadable("denied".to_owned()))),
        "failed to read DevToolsActivePort: denied"
    );
    assert_eq!(
        failed(WaitEvent::PortFile(PortFile::Contents("no".to_owned()))),
        "invalid DevToolsActivePort contents: no"
    );
    assert_eq!(
        failed(WaitEvent::Version {
            http_base_url: "h".to_owned(),
            reply: VersionReply::Malformed("not json".to_owned()),
        }),
        "CDP HTTP request failed: not json"
    );
    assert_eq!(
        failed(WaitEvent::Health {
            http_base_url: "h".to_owned(),
            browser_ws_url: "w".to_owned(),
            outcome: Err(BrowserError::CdpTimeout("Target.getTargets")),
        }),
        "CDP command timed out: Target.getTargets"
    );
}

#[test]
fn shutdowns_escalate() {
    let browser = launched();
    let step = |event| browser.shutdown(event);
    assert_eq!(
        step(ShutdownEvent::Asked { ended: true }),
        ShutdownStep::Report(ShutdownKind::AlreadyExited)
    );
    assert_eq!(step(ShutdownEvent::Asked { ended: false }), ShutdownStep::TellToClose);
    assert_eq!(step(ShutdownEvent::ToldToClose { agreed: true }), ShutdownStep::WaitForClose);
    assert_eq!(step(ShutdownEvent::ToldToClose { agreed: false }), ShutdownStep::Terminate);
    assert_eq!(
        step(ShutdownEvent::WaitedForClose { ended: true }),
        ShutdownStep::Report(ShutdownKind::Graceful)
    );
    assert_eq!(step(ShutdownEvent::WaitedForClose { ended: false }), ShutdownStep::Terminate);
    assert_eq!(
        step(ShutdownEvent::WaitedForTerm { ended: true }),
        ShutdownStep::Report(ShutdownKind::Terminated)
    );
    assert_eq!(step(ShutdownEvent::WaitedForTerm { ended: false }), ShutdownStep::Kill);
    assert_eq!(step(ShutdownEvent::Killed), ShutdownStep::Report(ShutdownKind::Killed));
    let report = browser.report(ShutdownKind::Killed, "because");
    assert_eq!((report.pid, report.kind, report.reason.as_str()), (42, ShutdownKind::Killed, "because"));
}

#[test]
fn failed_launches_are_cleaned_up() {
    assert_eq!(terminate_child(false, false), CleanUpStep::Done);
    assert_eq!(terminate_child(true, false), CleanUpStep::Terminate);
    assert_eq!(terminate_child(true, true), CleanUpStep::Kill);
    assert_eq!(terminate_child(false, true), CleanUpStep::Done);
}

#[test]
fn lone_commands_are_number_one() {
    let command = Command {
        session_id: None,
        method: "Browser.getVersion",
        params: Json::Object(vec![("depth".to_owned(), Json::Unsigned(3))]),
    };
    let value: serde_json::Value = serde_json::from_str(&cdp_command(command)).unwrap();
    assert_eq!(value["id"], 1);
    assert_eq!(value["method"], "Browser.getVersion");
    assert_eq!(value["params"]["depth"], 3);
    assert_eq!(
        health_check_browser_ws(),
        r#"{"id":1,"method":"Target.getTargets","params":{}}"#
    );
    assert_eq!(
        launched().close_request(),
        r#"{"id":1,"method":"Browser.close","params":{}}"#
    );
}

#[test]
fn answers_to_lone_commands_are_told_apart() {
    let answer = |event| cdp_command_answer("M", event);
    let text = |text: &str| SocketEvent::Text(text.to_owned());
    assert!(answer(SocketEvent::Other).is_none());
    assert!(answer(text(r#"{"id":2,"result":{}}"#)).is_none());
    assert!(answer(text(r#"{"method":"Target.targetCreated"}"#)).is_none());
    match answer(text(r#"{"id":1,"result":{"product":"x"}}"#)) {
        Some(Ok(value)) => assert_eq!(value.get_str("product"), Some("x")),
        other => panic!("{other:?}"),
    }
    assert!(matches!(answer(text(r#"{"id":1}"#)), Some(Ok(Json::Null))));
    let failed = |event| match answer(event) {
        Some(Err(error)) => error.message(),
        other => panic!("{other:?}"),
    };
    assert_eq!(
        failed(text(r#"{"id":1,"error":{"message":"no"}}"#)),
        r#"CDP command failed: {"message":"no"}"#
    );
    assert_eq!(failed(text("x")), "CDP command failed: expected value at line 1 column 1");
    assert_eq!(failed(SocketEvent::Closed), "CDP command failed: websocket closed");
    assert_eq!(failed(SocketEvent::Failed("io".to_owned())), "CDP websocket failed: io");
    assert_eq!(failed(SocketEvent::TimedOut), "CDP command timed out: M");
}

#[test]
fn outcomes_of_lone_commands_are_told_apart() {
    let read = parse_message(r#"{"id":1,"result":7}"#);
    assert!(matches!(command_outcome(read), Some(Ok(Json::Unsigned(7)))));
    let body = Json::Object(vec![("id".to_owned(), Json::Unsigned(1))]);
    match command_outcome(Ok(Message { body, error: Some("no".to_owned()) })) {
        Some(Err(error)) => assert_eq!(error.message(), "CDP command failed: no"),
        other => panic!("{other:?}"),
    }
    match command_outcome(Err("bad".to_owned())) {
        Some(Err(error)) => assert_eq!(error.message(), "CDP command failed: bad"),
        other => panic!("{other:?}"),
    }
    assert!(command_outcome(parse_message("{}")).is_none());
}

#[test]
fn only_pages_with_sockets_are_disguised() {
    let target = |kind: &str, url: Option<&str>| TargetDescriptor {
        target_type: kind.to_owned(),
        web_socket_debugger_url: url.map(|url| url.to_owned()),
    };
    let targets = vec![
        target("page", Some("ws://1")),
        target("worker", Some("ws://2")),
        target("iframe", None),
        target("iframe", Some("ws://4")),
    ];
    let disguises = launched().inject_stealth_into_existing_targets(&targets);
    let urls: Vec<&str> = disguises.iter().map(|disguise| disguise.ws_url.as_str()).collect();
    assert_eq!(urls, vec!["ws://1", "ws://4"]);
    for disguise in &disguises {
        let methods: Vec<String> = disguise
            .requests
            .iter()
            .map(|request| {
                let value: serde_json::Value = serde_json::from_str(&request.text).unwrap();
                assert_eq!(value["id"], 1);
                assert_eq!(value["method"], request.method);
                value["method"].as_str().unwrap().to_owned()
            })
            .collect();
        assert_eq!(
            methods,
            vec!["Page.enable", "Page.addScriptToEvaluateOnNewDocument", "Runtime.evaluate"]
        );
        let value: serde_json::Value = serde_json::from_str(&disguise.requests[1].text).unwrap();
        assert_eq!(value["params"]["source"], BASELINE_SCRIPT);
        assert_eq!(value["params"]["runImmediately"], true);
    }
}

#[test]
fn a_copy_of_options_says_the_same() {
    let options = ChromeLaunchOptions {
        executable: Some("/c".to_owned()),
        additional_args: vec!["--a".to_owned()],
        proxy: Some("p".to_owned()),
        extension_paths: vec!["/e".to_owned()],
        stealth: StealthProfile::new(true, Some("UA".to_owned())),
        ..options()
    };
    let copy = options.copy();
    assert_eq!(chrome_args("/p", &copy), chrome_args("/p", &options));
    assert_eq!(copy.executable, options.executable);
    assert_eq!(copy.launch_timeout, options.launch_timeout);
}

#[test]
fn steps_have_their_time() {
    let browser = launched();
    let time = |step| browser.allowed_time(step);
    assert_eq!(time(ShutdownStep::TellToClose), Some(browser.close_timeout));
    assert_eq!(time(ShutdownStep::WaitForClose), Some(browser.terminate_timeout));
    assert_eq!(time(ShutdownStep::Terminate), Some(browser.terminate_timeout));
    assert_eq!(time(ShutdownStep::Kill), None);
    assert_eq!(time(ShutdownStep::Report(ShutdownKind::Killed)), None);
    let options = options();
    assert_eq!(options.clean_up_time(CleanUpStep::Terminate), Some(Span::from_secs(2)));
    assert_eq!(options.clean_up_time(CleanUpStep::Kill), None);
    assert_eq!(options.clean_up_time(CleanUpStep::Done), None);
}
