use eiger::config::{
    bind_addr_text, comma_separated_env, flag_env, mb_env, optional_env, positive_u32_env,
    rss_limit_overflows, seconds_env, AppConfig, AuthConfig, BrowserConfig, ConfigError,
    Environment, HttpConfig, PoolConfig, RateLimitConfig, StealthConfig, DEFAULT_BIND_ADDR,
    DEFAULT_MAX_CONCURRENT_SESSIONS, DEFAULT_PER_SESSION_RSS_MB, DEFAULT_RATE_LIMIT_BURST,
    DEFAULT_RATE_LIMIT_RPS, DEFAULT_REQUEST_BODY_LIMIT_BYTES,
};
use eiger::span::Span;
use eiger::text::comma_separated;

fn env(vars: &[(&str, &str)]) -> Environment {
    Environment {
        vars: vars.iter().map(|var| (var.0.to_owned(), var.1.to_owned())).collect(),
    }
}

fn refused(vars: &[(&str, &str)]) -> String {
    AppConfig::from_env(&env(vars), true).unwrap_err().message()
}

#[test]
fn defaults_are_safe_for_single_node_self_hosting() {
    let config = AppConfig {
        bind_addr: DEFAULT_BIND_ADDR.to_owned(),
        auth: AuthConfig { token: None },
        http: HttpConfig {
            cors_origins: Vec::new(),
            request_body_limit_bytes: DEFAULT_REQUEST_BODY_LIMIT_BYTES,
        },
        rate_limit: RateLimitConfig {
            requests_per_second: DEFAULT_RATE_LIMIT_RPS,
            burst: DEFAULT_RATE_LIMIT_BURST,
        },
        browser: BrowserConfig {
            executable: None,
            no_sandbox: true,
            launch_timeout: Span::from_secs(10),
            close_timeout: Span::from_secs(3),
            terminate_timeout: Span::from_secs(2),
            additional_args: Vec::new(),
            user_agent: None,
            profile_storage_dir: None,
        },
        pool: PoolConfig {
            max_concurrent_sessions: DEFAULT_MAX_CONCURRENT_SESSIONS,
            launch_queue_timeout: Span::from_secs(15),
            max_session_lifetime: Span::from_secs(30 * 60),
            max_idle_time: Span::from_secs(5 * 60),
            per_session_rss_limit_bytes: DEFAULT_PER_SESSION_RSS_MB * 1024 * 1024,
            maintenance_interval: Span::from_secs(5),
            cdp_health_interval: Span::from_secs(30),
        },
        stealth: StealthConfig { enabled: true },
    };

    assert_eq!(config.pool.max_concurrent_sessions, 4);
    assert_eq!(config.pool.per_session_rss_limit_bytes, 1536 * 1024 * 1024);
    assert_eq!(config.rate_limit.requests_per_second, 10);
    assert_eq!(config.rate_limit.burst, 20);
    assert!(config.browser.no_sandbox);
    assert!(config.stealth.enabled);
}

#[test]
fn comma_separated_env_values_are_trimmed() {
    assert_eq!(
        comma_separated("https://app.example, https://admin.example ,,"),
        vec!["https://app.example", "https://admin.example"]
    );
}

#[test]
fn an_empty_environment_gives_the_defaults() {
    let config = AppConfig::from_env(&env(&[]), true).unwrap();
    assert_eq!(config.bind_addr, "0.0.0.0:3000");
    assert_eq!(config.auth.token, None);
    assert!(config.http.cors_origins.is_empty());
    assert_eq!(config.http.request_body_limit_bytes, 65536);
    assert_eq!(config.rate_limit.requests_per_second, 10);
    assert_eq!(config.rate_limit.burst, 20);
    assert_eq!(config.browser.executable, None);
    assert!(config.browser.no_sandbox);
    assert_eq!(config.browser.launch_timeout, Span::from_secs(10));
    assert_eq!(config.browser.close_timeout, Span::from_secs(3));
    assert_eq!(config.browser.terminate_timeout, Span::from_secs(2));
    assert!(config.browser.additional_args.is_empty());
    assert_eq!(config.browser.user_agent, None);
    assert_eq!(config.browser.profile_storage_dir, None);
    assert_eq!(config.pool.max_concurrent_sessions, 4);
    assert_eq!(config.pool.launch_queue_timeout, Span::from_secs(15));
    assert_eq!(config.pool.max_session_lifetime, Span::from_secs(1800));
    assert_eq!(config.pool.max_idle_time, Span::from_secs(300));
    assert_eq!(config.pool.per_session_rss_limit_bytes, 1_610_612_736);
    assert_eq!(config.pool.maintenance_interval, Span::from_secs(5));
    assert_eq!(config.pool.cdp_health_interval, Span::from_secs(30));
    assert!(config.stealth.enabled);
}

#[test]
fn variables_are_read() {
    let config = AppConfig::from_env(
        &env(&[
            ("EIGER_BIND_ADDR", "127.0.0.1:1"),
            ("EIGER_TOKEN", " t "),
            ("EIGER_CORS_ORIGINS", "a, b"),
            ("EIGER_REQUEST_BODY_LIMIT_BYTES", "7"),
            ("EIGER_RATE_LIMIT_RPS", "1"),
            ("EIGER_RATE_LIMIT_BURST", "2"),
            ("EIGER_CHROME_EXECUTABLE", "/c"),
            ("EIGER_CHROME_NO_SANDBOX", "false"),
            ("EIGER_CHROME_ARGS", " --a   --b\t--c "),
            ("EIGER_USER_AGENT", "ua"),
            ("EIGER_PROFILE_STORAGE_DIR", "/profiles"),
            ("EIGER_MAX_CONCURRENT_SESSIONS", "0"),
            ("EIGER_PER_SESSION_RSS_LIMIT_MB", "2"),
            ("EIGER_STEALTH_ENABLED", "false"),
        ]),
        true,
    )
    .unwrap();
    assert_eq!(config.bind_addr, "127.0.0.1:1");
    assert_eq!(config.auth.token.as_deref(), Some(" t "));
    assert_eq!(config.http.cors_origins, vec!["a", "b"]);
    assert_eq!(config.http.request_body_limit_bytes, 7);
    assert_eq!((config.rate_limit.requests_per_second, config.rate_limit.burst), (1, 2));
    assert_eq!(config.browser.executable.as_deref(), Some("/c"));
    assert!(!config.browser.no_sandbox);
    assert_eq!(config.browser.additional_args, vec!["--a", "--b", "--c"]);
    assert_eq!(config.browser.user_agent.as_deref(), Some("ua"));
    assert_eq!(config.browser.profile_storage_dir.as_deref(), Some("/profiles"));
    assert_eq!(config.pool.max_concurrent_sessions, 0);
    assert_eq!(config.pool.per_session_rss_limit_bytes, 2_097_152);
    assert!(!config.stealth.enabled);
}

#[test]
fn bad_values_are_named() {
    assert_eq!(refused(&[("EIGER_RATE_LIMIT_RPS", "0")]), "invalid value for EIGER_RATE_LIMIT_RPS: 0");
    assert_eq!(
        refused(&[("EIGER_RATE_LIMIT_BURST", "000")]),
        "invalid value for EIGER_RATE_LIMIT_BURST: 0"
    );
    assert_eq!(
        refused(&[("EIGER_CHROME_NO_SANDBOX", "yes")]),
        "invalid value for EIGER_CHROME_NO_SANDBOX: yes"
    );
    assert_eq!(
        refused(&[("EIGER_MAX_IDLE_TIME_SECS", "")]),
        "invalid value for EIGER_MAX_IDLE_TIME_SECS: "
    );
    assert_eq!(
        refused(&[("EIGER_STEALTH_ENABLED", "1"), ("EIGER_MAX_IDLE_TIME_SECS", "-1")]),
        "invalid value for EIGER_MAX_IDLE_TIME_SECS: -1"
    );
    let error = AppConfig::from_env(&env(&[("EIGER_BIND_ADDR", "nowhere")]), false).unwrap_err();
    assert_eq!(error.message(), "invalid value for EIGER_BIND_ADDR: nowhere");
    assert!(matches!(error, ConfigError::InvalidValue { name: "EIGER_BIND_ADDR", .. }));
}

#[test]
fn single_readers_read_single_variables() {
    let env = env(&[("A", " "), ("B", "x"), ("N", "12"), ("B", "y"), ("L", " a ,b,"), ("F", "true")]);
    assert_eq!(optional_env(&env, "A"), None);
    assert_eq!(optional_env(&env, "B").as_deref(), Some("y"));
    assert_eq!(optional_env(&env, "C"), None);
    assert_eq!(comma_separated_env(&env, "L"), vec!["a", "b"]);
    assert!(comma_separated_env(&env, "A").is_empty());
    assert_eq!(seconds_env(&env, "N", 1).unwrap(), Span::from_secs(12));
    assert_eq!(seconds_env(&env, "M", 1).unwrap(), Span::from_secs(1));
    assert_eq!(mb_env(&env, "N", 1).unwrap(), 12);
    assert_eq!(positive_u32_env(&env, "N", 1).unwrap(), 12);
    assert!(positive_u32_env(&env, "M", 0).is_err());
    assert!(flag_env(&env, "F", false).unwrap());
    assert!(flag_env(&env, "B", false).is_err());
    assert_eq!(bind_addr_text(&env), DEFAULT_BIND_ADDR);
}

#[test]
fn a_memory_limit_that_does_not_fit_is_found() {
    let large = env(&[("EIGER_PER_SESSION_RSS_LIMIT_MB", "17592186044416")]);
    assert!(rss_limit_overflows(&large, true));
    let small = env(&[("EIGER_PER_SESSION_RSS_LIMIT_MB", "17592186044415")]);
    assert!(!rss_limit_overflows(&small, true));
}
