use eiger::metrics::{
    descendants_of, escape_label, float_text, parse_row, parse_table, process_tree,
    render_prometheus, sample_process, sample_process_tree, PoolMetrics, RssOverflow,
    SessionMetric,
};

fn metrics() -> PoolMetrics {
    PoolMetrics {
        active_sessions: 1,
        max_concurrent_sessions: 4,
        sessions_created_total: 2,
        sessions_hard_killed_total: 1,
        sessions_rejected_total: 3,
        sessions_rss_limit_recycled_total: 4,
        sessions_idle_recycled_total: 5,
        sessions_lifetime_recycled_total: 6,
        sessions_process_exit_recycled_total: 7,
        sessions_cdp_unhealthy_recycled_total: 8,
        sessions: vec![SessionMetric {
            id: "abc".to_owned(),
            state: "ready".to_owned(),
            pid: Some(42),
            rss_bytes: Some(1000),
            cpu_percent: Some("0.5".to_owned()),
            process_count: Some(3),
            age_seconds: 10,
            idle_seconds: 1,
        }],
    }
}

#[test]
fn prometheus_render_includes_counters_and_session_rss() {
    let rendered = render_prometheus(&metrics());

    assert!(rendered.contains("eiger_sessions_active 1"));
    assert!(rendered.contains("eiger_sessions_hard_killed_total 1"));
    assert!(rendered.contains("eiger_sessions_rss_limit_recycled_total 4"));
    assert!(rendered.contains("eiger_session_rss_bytes{session=\"abc\",state=\"ready\"} 1000"));
    assert!(rendered.contains("eiger_session_processes{session=\"abc\",state=\"ready\"} 3"));
}

#[test]
fn the_whole_page_of_metrics_is_in_order() {
    let rendered = render_prometheus(&metrics());
    let lines: Vec<&str> = rendered.lines().collect();
    assert_eq!(lines[0], "# HELP eiger_sessions_active Active browser sessions.");
    assert_eq!(lines[1], "# TYPE eiger_sessions_active gauge");
    assert_eq!(lines[2], "eiger_sessions_active 1");
    assert_eq!(lines[29], "eiger_sessions_cdp_unhealthy_recycled_total 8");
    assert_eq!(lines.len(), 39);
    assert_eq!(lines[35], "eiger_session_cpu_percent{session=\"abc\",state=\"ready\"} 0.5");
    assert!(rendered.ends_with("} 3\n"));
}

#[test]
fn sessions_without_a_sample_have_no_lines() {
    let mut empty = metrics();
    empty.sessions[0].rss_bytes = None;
    empty.sessions[0].cpu_percent = None;
    empty.sessions[0].process_count = None;
    assert!(!render_prometheus(&empty).contains("session=\"abc\""));
}

#[test]
fn labels_are_escaped() {
    assert_eq!(escape_label("a\\b\"c"), "a\\\\b\\\"c");
    assert_eq!(escape_label("plain"), "plain");
}

#[test]
fn rows_of_the_process_table_are_read() {
    let row = parse_row("  10  1 2048  0.5 extra").unwrap();
    assert_eq!((row.pid, row.parent, row.rss_kb, row.cpu.as_str()), (10, 1, 2048, "0.5"));
    assert!(parse_row("10 1 2048").is_none());
    assert!(parse_row("x 1 2048 0.5").is_none());
    assert!(parse_row("10 1 2048 cpu").is_none());
    for number in ["0.5", "1", "-2", "+3.", ".5", "1e3", "1E-3", "inf", "NaN", "infinity"] {
        assert!(float_text(number), "{number}");
        assert!(number.parse::<f32>().is_ok(), "{number}");
    }
    for number in ["", ".", "e5", "1e", "0x1", "1_0", "-", "1,5"] {
        assert!(!float_text(number), "{number}");
        assert!(number.parse::<f32>().is_err(), "{number}");
    }
}

#[test]
fn a_process_tree_is_sampled() {
    let table = "1 0 10 0.0\n2 1 20 1.5\n3 2 30 2.0\n4 9 40 9.0\nnot a row\n5 3 50 0.5\n";
    let sample = sample_process_tree(table, 2).unwrap().unwrap();
    assert_eq!(sample.pid, 2);
    assert_eq!(sample.rss_bytes, 100 * 1024);
    assert_eq!(sample.cpu, vec!["1.5", "2.0", "0.5"]);
    assert_eq!(sample.process_count, 3);
    assert!(sample_process_tree(table, 7).unwrap().is_none());
    let mut tree = descendants_of(&parse_table(table), 2);
    tree.sort();
    assert_eq!(tree, vec![2, 3, 5]);
    let again = process_tree(&parse_table(table), 4).unwrap().unwrap();
    assert_eq!(again.process_count, 1);
}

#[test]
fn cycles_in_the_process_table_end() {
    let table = "1 2 1 0\n2 1 1 0\n";
    assert_eq!(sample_process_tree(table, 1).unwrap().unwrap().process_count, 2);
}

#[test]
fn sizes_that_do_not_fit_are_reported() {
    let table = "1 0 18014398509481984 0\n";
    assert_eq!(sample_process_tree(table, 1).unwrap_err(), RssOverflow);
}

#[test]
fn a_single_process_is_sampled() {
    let sample = sample_process("\n  2048 1.5\n", 9).unwrap().unwrap();
    assert_eq!((sample.pid, sample.rss_bytes, sample.process_count), (9, 2_097_152, 1));
    assert_eq!(sample.cpu, vec!["1.5"]);
    assert!(sample_process("", 9).unwrap().is_none());
}

#[test]
fn the_order_of_the_lines_does_not_matter() {
    let orders = [
        "10 1 100 1.5\n11 10 200 0.5\n12 11 300 0.0\n99 1 7 0.0\n",
        "12 11 300 0.0\n99 1 7 0.0\n11 10 200 0.5\n10 1 100 1.5\n",
        "11 10 200 0.5\n10 1 100 1.5\n99 1 7 0.0\n12 11 300 0.0\n",
    ];
    for table in orders {
        let sample = sample_process_tree(table, 10).unwrap().unwrap();
        assert_eq!((sample.rss_bytes, sample.process_count), (600 * 1024, 3));
        assert!(sample_process_tree(table, 13).unwrap().is_none());
    }
}
