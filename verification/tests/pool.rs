use eiger::browser::{BrowserError, BrowserReady, LaunchedBrowser, ShutdownKind};
use eiger::config::{
    AppConfig, AuthConfig, BrowserConfig, HttpConfig, PoolConfig, RateLimitConfig, StealthConfig,
};
use eiger::pool::{
    count_recycle_reason, profile_dir, CapacityWait, Counters, CpuReading, MaintenanceEvent,
    MaintenanceStep, PoolError, ResourceSample, SessionOverrides, SessionPool, SessionState,
};
use eiger::span::{Now, Span, WallClock};
use std::sync::Arc;
use std::time::{Duration, Instant};

fn test_config(max_concurrent_sessions: usize, launch_queue_timeout: Span) -> AppConfig {
    AppConfig {
        bind_addr: "127.0.0.1:0".to_owned(),
        auth: AuthConfig { token: None },
        http: HttpConfig {
            cors_origins: Vec::new(),
            request_body_limit_bytes: 64 * 1024,
        },
        rate_limit: RateLimitConfig {
            requests_per_second: 10,
            burst: 20,
        },
        browser: BrowserConfig {
            executable: None,
            no_sandbox: false,
            launch_timeout: Span::from_secs(10),
            close_timeout: Span::from_secs(3),
            terminate_timeout: Span::from_secs(2),
            additional_args: Vec::new(),
            user_agent: None,
            profile_storage_dir: None,
        },
        pool: PoolConfig {
            max_concurrent_sessions,
            launch_queue_timeout,
            max_session_lifetime: Span::from_secs(30 * 60),
            max_idle_time: Span::from_secs(5 * 60),
            per_session_rss_limit_bytes: 1536 * 1024 * 1024,
            maintenance_interval: Span::from_secs(5),
            cdp_health_interval: Span::from_secs(30),
        },
        stealth: StealthConfig { enabled: true },
    }
}

fn pool(max: usize) -> SessionPool {
    SessionPool::from_config(&test_config(max, Span::from_secs(15)))
}

fn now(secs: u64) -> Now {
    Now {
        wall: WallClock { secs: secs as i64, nanos: 0 },
        ticks: secs as u128 * 1_000_000_000,
    }
}

fn browser(pid: u32) -> LaunchedBrowser {
    LaunchedBrowser {
        ready: BrowserReady {
            pid,
            http_base_url: "http://127.0.0.1:9222".to_owned(),
            browser_ws_url: format!("ws://127.0.0.1:9222/devtools/browser/{pid}"),
        },
        close_timeout: Span::from_secs(3),
        terminate_timeout: Span::from_secs(2),
    }
}

fn add(pool: &mut SessionPool, id: u128, pid: u32, at: u64) {
    pool.begin_launch(CapacityWait::Granted).unwrap();
    pool.create_session(id, true, Ok(browser(pid)), now(at)).unwrap();
}

#[test]
fn create_session_times_out_when_launch_queue_has_no_capacity() {
    let config = test_config(0, Span::from_millis(10));
    let mut pool = SessionPool::from_config(&config);
    let started_at = Instant::now();

    assert!(pool.plan_launch(SessionOverrides::default()).is_ok());
    let room = Arc::new(tokio::sync::Semaphore::new(pool.available_capacity()));
    let queue = pool.launch_queue_timeout();
    let queue = Duration::new(queue.as_secs(), queue.subsec_nanos());
    let runtime = tokio::runtime::Builder::new_current_thread().enable_time().build().unwrap();
    let wait = runtime.block_on(async {
        match tokio::time::timeout(queue, room.acquire_owned()).await {
            Ok(Ok(_)) => CapacityWait::Granted,
            Ok(Err(_)) => CapacityWait::Closed,
            Err(_) => CapacityWait::TimedOut,
        }
    });
    let error = match pool.begin_launch(wait) {
        Ok(_) => panic!("request should time out before launch"),
        Err(error) => error,
    };

    assert!(matches!(error, PoolError::CapacityTimeout));
    assert!(started_at.elapsed() < Duration::from_secs(1));
}

#[test]
fn refused_launches_are_counted() {
    let mut pool = pool(1);
    assert!(matches!(pool.begin_launch(CapacityWait::Closed), Err(PoolError::AtCapacity)));
    assert!(matches!(pool.begin_launch(CapacityWait::TimedOut), Err(PoolError::CapacityTimeout)));
    assert_eq!(pool.metrics(&Vec::new(), now(0)).sessions_rejected_total, 2);
    assert_eq!(pool.available_capacity(), 1);
}

#[test]
fn room_is_taken_from_launch_to_release() {
    let mut pool = pool(2);
    pool.begin_launch(CapacityWait::Granted).unwrap();
    assert_eq!((pool.available_capacity(), pool.launches()), (1, 1));
    pool.create_session(7, true, Ok(browser(70)), now(1)).unwrap();
    assert_eq!((pool.available_capacity(), pool.launches()), (1, 0));
    let entry = pool.terminate_session(7, "delete requested").unwrap();
    assert_eq!((pool.available_capacity(), pool.departures()), (1, 1));
    assert_eq!(entry.state, SessionState::Killing);
    assert_eq!(entry.kill_reason.as_deref(), Some("delete requested"));
    let entry = pool.shutdown_entry(entry, Some(ShutdownKind::Graceful));
    assert_eq!(entry.state, SessionState::Dead);
    pool.release();
    assert_eq!((pool.available_capacity(), pool.departures()), (2, 0));
    pool.begin_launch(CapacityWait::Granted).unwrap();
    pool.cancel_launch();
    assert_eq!(pool.available_capacity(), 2);
}

#[test]
fn failed_launches_make_the_pool_unready() {
    let mut pool = pool(2);
    assert!(!pool.readiness().can_accept_sessions);
    add(&mut pool, 1, 10, 0);
    let readiness = pool.readiness();
    assert!(readiness.can_accept_sessions);
    assert_eq!((readiness.status, readiness.active_sessions), ("ready", 1));
    assert_eq!((readiness.max_concurrent_sessions, readiness.available_capacity), (2, 1));
    pool.begin_launch(CapacityWait::Granted).unwrap();
    let error = pool
        .create_session(2, true, Err(BrowserError::MissingExecutable), now(0))
        .unwrap_err();
    assert!(matches!(error, PoolError::Browser(BrowserError::MissingExecutable)));
    let readiness = pool.readiness();
    assert!(!readiness.browser_launch_ready);
    assert_eq!(readiness.status, "not_ready");
    assert_eq!(
        readiness.last_browser_launch_error.as_deref(),
        Some("chrome executable could not be resolved; set EIGER_CHROME_EXECUTABLE")
    );
    assert_eq!(readiness.available_capacity, 1);
    pool.begin_launch(CapacityWait::Granted).unwrap();
    pool.create_session(2, true, Ok(browser(11)), now(0)).unwrap();
    assert_eq!(pool.readiness().last_browser_launch_error, None);
    assert!(!pool.readiness().can_accept_sessions);
}

#[test]
fn launches_are_planned_from_options_and_wishes() {
    let mut config = test_config(1, Span::from_secs(1));
    config.browser.additional_args = vec!["--pool".to_owned()];
    config.browser.profile_storage_dir = Some("/profiles".to_owned());
    let pool = SessionPool::from_config(&config);
    let plan = pool
        .plan_launch(SessionOverrides {
            stealth_enabled: Some(false),
            extra_chrome_args: vec!["--mine".to_owned()],
            proxy: Some("http://p".to_owned()),
            extension_paths: vec!["/e".to_owned()],
            persistent_profile_id: Some("me".to_owned()),
        })
        .unwrap();
    assert!(!plan.options.stealth.enabled);
    assert_eq!(plan.options.additional_args, vec!["--pool", "--mine"]);
    assert_eq!(plan.options.proxy.as_deref(), Some("http://p"));
    assert_eq!(plan.options.extension_paths, vec!["/e"]);
    assert_eq!(plan.profile_dir.as_deref(), Some("/profiles/me"));
    let plan = pool.plan_launch(SessionOverrides::default()).unwrap();
    assert!(plan.options.stealth.enabled);
    assert_eq!(plan.options.additional_args, vec!["--pool"]);
    assert_eq!(plan.options.stealth.window_width, 1365);
    assert_eq!(plan.profile_dir, None);
    assert_eq!(pool.maintenance_interval(), Span::from_secs(5));
}

#[test]
fn profiles_stay_in_their_directory() {
    let storage = Some("/profiles".to_owned());
    let dir = |id: &str| profile_dir(&storage, Some(id.to_owned()));
    assert_eq!(dir("a.b-c").unwrap().as_deref(), Some("/profiles/a.b-c"));
    for bad in ["", ".", "..", "a/b", "a\\b", "../x", "a\0"] {
        match dir(bad) {
            Err(PoolError::InvalidPersistentProfileId(id)) => assert_eq!(id, bad),
            other => panic!("{other:?}"),
        }
    }
    assert!(profile_dir(&storage, None).unwrap().is_none());
    assert!(profile_dir(&None, None).unwrap().is_none());
    assert!(matches!(
        profile_dir(&None, Some("a".to_owned())),
        Err(PoolError::PersistentProfilesDisabled)
    ));
    assert_eq!(
        PoolError::PersistentProfilesDisabled.message(),
        "persistent profiles are disabled; set EIGER_PROFILE_STORAGE_DIR"
    );
}

#[test]
fn sessions_are_connected_to_once_and_then_in_use() {
    let mut pool = pool(2);
    assert!(matches!(pool.connect_session(1, now(1)), Err(PoolError::NotFound(1))));
    add(&mut pool, 1, 10, 0);
    let handle = pool.connect_session(1, now(50)).unwrap();
    assert_eq!((handle.id(), handle.pid(), handle.stealth_enabled()), (1, 10, true));
    assert_eq!(handle.browser_ws_url(), "ws://127.0.0.1:9222/devtools/browser/10");
    let info = pool.get_session(1, None, now(60)).unwrap();
    assert_eq!(info.state, SessionState::InUse);
    assert_eq!(info.last_used_at, WallClock { secs: 50, nanos: 0 });
    assert_eq!((info.age_seconds, info.idle_seconds), (60, 10));
    assert_eq!((info.rss_bytes, info.process_count), (None, None));
    assert!(matches!(pool.connect_session(1, now(61)), Err(PoolError::NotConnectable(1))));
}

#[test]
fn use_is_noted() {
    let mut pool = pool(2);
    pool.begin_launch(CapacityWait::Granted).unwrap();
    let handle = pool.create_session(1, false, Ok(browser(10)), now(0)).unwrap();
    assert!(!handle.stealth_enabled());
    handle.touch(&mut pool, now(5));
    let info = pool.get_session(1, None, now(6)).unwrap();
    assert_eq!((info.state, info.idle_seconds), (SessionState::Ready, 1));
    handle.mark_in_use(&mut pool, now(7));
    let info = pool.get_session(1, None, now(9)).unwrap();
    assert_eq!((info.state, info.idle_seconds), (SessionState::InUse, 2));
    pool.terminate_session(1, "x");
    handle.mark_in_use(&mut pool, now(8));
    assert!(pool.get_session(1, None, now(9)).is_none());
}

#[test]
fn sessions_are_listed_with_their_samples() {
    let mut pool = pool(3);
    add(&mut pool, 1, 10, 0);
    add(&mut pool, 2, 20, 5);
    let samples = vec![(
        20u32,
        ResourceSample {
            rss_bytes: 9,
            cpu: CpuReading { shown: "0.25".to_owned(), rounded: "0.2".to_owned() },
            process_count: 3,
        },
    )];
    let mut infos = pool.list_sessions(&samples, now(65));
    infos.sort_by_key(|info| info.id);
    assert_eq!(infos.len(), 2);
    assert_eq!((infos[0].id, infos[0].pid, infos[0].rss_bytes), (1, Some(10), None));
    assert_eq!((infos[1].id, infos[1].rss_bytes, infos[1].process_count), (2, Some(9), Some(3)));
    assert_eq!(infos[1].age_seconds, 60);
    let mut processes = pool.session_processes();
    processes.sort();
    assert_eq!(processes, vec![(1, 10), (2, 20)]);
    assert_eq!((pool.session_pid(2), pool.session_pid(3)), (Some(20), None));
    let mut metrics = pool.metrics(&samples, now(65));
    metrics.sessions.sort_by_key(|session| session.pid);
    assert_eq!((metrics.active_sessions, metrics.max_concurrent_sessions), (2, 3));
    assert_eq!(metrics.sessions_created_total, 2);
    assert_eq!(metrics.sessions[1].id, "00000000-0000-0000-0000-000000000002");
    assert_eq!(metrics.sessions[1].state, "ready");
    assert_eq!(metrics.sessions[1].cpu_percent.as_deref(), Some("0.25"));
}

#[test]
fn old_and_idle_sessions_are_recycled() {
    let mut pool = pool(2);
    add(&mut pool, 1, 10, 0);
    let visit = |pool: &mut SessionPool, at| pool.kill_reason_for(1, MaintenanceEvent::Visited(now(at)));
    assert!(matches!(visit(&mut pool, 300), MaintenanceStep::Sample { pid: 10 }));
    match visit(&mut pool, 301) {
        MaintenanceStep::Recycle(reason) => assert_eq!(reason, "max idle time exceeded"),
        other => panic!("{other:?}"),
    }
    pool.connect_session(1, now(2)).unwrap();
    assert!(matches!(visit(&mut pool, 1800), MaintenanceStep::Sample { pid: 10 }));
    match visit(&mut pool, 1801) {
        MaintenanceStep::Recycle(reason) => assert_eq!(reason, "max session lifetime exceeded"),
        other => panic!("{other:?}"),
    }
    assert!(matches!(
        pool.kill_reason_for(9, MaintenanceEvent::Visited(now(9999))),
        MaintenanceStep::Keep
    ));
}

#[test]
fn heavy_dead_and_unhealthy_sessions_are_recycled() {
    let mut pool = pool(2);
    add(&mut pool, 1, 10, 0);
    let sampled = |rss_bytes, at| MaintenanceEvent::Sampled { rss_bytes, now: now(at) };
    let reason = |step| match step {
        MaintenanceStep::Recycle(reason) => reason,
        other => panic!("{other:?}"),
    };
    assert_eq!(
        reason(pool.kill_reason_for(1, sampled(Some(1_610_612_737), 1))),
        "rss limit exceeded: 1610612737 > 1610612736"
    );
    assert_eq!(reason(pool.kill_reason_for(1, sampled(None, 1))), "browser process exited");
    assert!(matches!(
        pool.kill_reason_for(1, sampled(Some(1_610_612_736), 29)),
        MaintenanceStep::Keep
    ));
    match pool.kill_reason_for(1, sampled(Some(1), 30)) {
        MaintenanceStep::CheckHealth { browser_ws_url } => {
            assert_eq!(browser_ws_url, "ws://127.0.0.1:9222/devtools/browser/10")
        }
        other => panic!("{other:?}"),
    }
    assert!(matches!(pool.kill_reason_for(1, sampled(Some(1), 59)), MaintenanceStep::Keep));
    assert!(matches!(
        pool.kill_reason_for(1, MaintenanceEvent::HealthChecked(None)),
        MaintenanceStep::Keep
    ));
    assert_eq!(
        reason(pool.kill_reason_for(
            1,
            MaintenanceEvent::HealthChecked(Some(BrowserError::CdpTimeout("Target.getTargets")))
        )),
        "cdp health check failed: CDP command timed out: Target.getTargets"
    );
}

fn no_counts() -> Counters {
    Counters {
        created: 0,
        hard_killed: 0,
        rejected: 0,
        rss_limit_recycled: 0,
        idle_recycled: 0,
        lifetime_recycled: 0,
        process_exit_recycled: 0,
        cdp_unhealthy_recycled: 0,
    }
}

#[test]
fn reasons_are_counted() {
    let counted = |reason| count_recycle_reason(no_counts(), reason);
    assert_eq!(
        counted("rss limit exceeded: 2 > 1"),
        Counters { rss_limit_recycled: 1, ..no_counts() }
    );
    assert_eq!(counted("max idle time exceeded"), Counters { idle_recycled: 1, ..no_counts() });
    assert_eq!(
        counted("max session lifetime exceeded"),
        Counters { lifetime_recycled: 1, ..no_counts() }
    );
    assert_eq!(
        counted("browser process exited"),
        Counters { process_exit_recycled: 1, ..no_counts() }
    );
    assert_eq!(
        counted("cdp health check failed: x"),
        Counters { cdp_unhealthy_recycled: 1, ..no_counts() }
    );
    assert_eq!(counted("delete requested"), no_counts());
    let full = Counters { idle_recycled: u64::MAX, ..no_counts() };
    assert_eq!(count_recycle_reason(full, "max idle time exceeded").idle_recycled, 0);
}

#[test]
fn hard_kills_and_recycles_show_in_the_metrics() {
    let mut pool = pool(2);
    add(&mut pool, 1, 10, 0);
    let entry = pool.terminate_session(1, "rss limit exceeded: 2 > 1").unwrap();
    pool.shutdown_entry(entry, Some(ShutdownKind::Killed));
    assert!(pool.terminate_session(1, "again").is_none());
    let metrics = pool.metrics(&Vec::new(), now(1));
    assert_eq!(metrics.sessions_hard_killed_total, 1);
    assert_eq!(metrics.sessions_rss_limit_recycled_total, 1);
    assert_eq!(metrics.active_sessions, 0);
    assert!(metrics.sessions.is_empty());
}

#[test]
fn states_have_names() {
    let names: Vec<&str> = [
        SessionState::Launching,
        SessionState::Ready,
        SessionState::InUse,
        SessionState::Draining,
        SessionState::Killing,
        SessionState::Dead,
    ]
    .iter()
    .map(|state| state.text())
    .collect();
    assert_eq!(names, vec!["launching", "ready", "in_use", "draining", "killing", "dead"]);
}

#[test]
fn ending_a_session_spares_the_others() {
    let mut pool = pool(3);
    add(&mut pool, 1, 10, 0);
    add(&mut pool, 2, 20, 0);
    pool.terminate_session(1, "delete requested");
    assert!(pool.get_session(1, None, now(1)).is_none());
    assert_eq!(pool.get_session(2, None, now(1)).unwrap().pid, Some(20));
    assert_eq!(pool.available_capacity(), 1);
    assert!(matches!(pool.connect_session(1, now(1)), Err(PoolError::NotFound(1))));
}

#[test]
fn readiness_follows_the_last_launch() {
    let mut pool = pool(3);
    add(&mut pool, 1, 10, 0);
    pool.begin_launch(CapacityWait::Granted).unwrap();
    assert!(pool.create_session(2, true, Err(BrowserError::MissingExecutable), now(1)).is_err());
    assert!(!pool.readiness().can_accept_sessions);
    add(&mut pool, 3, 30, 2);
    assert!(pool.readiness().can_accept_sessions);
    let metrics = pool.metrics(&Vec::new(), now(3));
    assert_eq!((metrics.active_sessions, metrics.sessions_created_total), (2, 2));
    assert!(pool.get_session(1, None, now(3)).is_some());
    let plan = pool.plan_launch(SessionOverrides::default()).unwrap();
    assert_eq!(plan.profile_dir, None);
}
