use udp_cluster::server_log::{ServerLog, SERVER_DOWN};

#[test]
fn load_line_and_average() {
    let mut log = ServerLog::new();
    let w = log.record(100, "T0");
    assert!(!w.rewind);
    assert_eq!(w.line, "Time: T0, Reqestes/sec: 100, Avg Reqestes/sec: 50\n");
    let w = log.record(51, "T1");
    assert_eq!(w.line, "Time: T1, Reqestes/sec: 51, Avg Reqestes/sec: 50\n");
    assert_eq!(log.avg_load, 50);
    assert_eq!(log.lines, 2);
}

#[test]
fn average_rounds_toward_zero() {
    let mut log = ServerLog::new();
    let w = log.record(-3, "now");
    assert_eq!(log.avg_load, -1);
    assert_eq!(w.line, "Time: now, Reqestes/sec: -3, Avg Reqestes/sec: -1\n");
}

#[test]
fn down_line_keeps_average() {
    let mut log = ServerLog::new();
    log.record(10, "a");
    let w = log.record(SERVER_DOWN, "b");
    assert_eq!(w.line, "Server down at time: b\n");
    assert_eq!(log.avg_load, 5);
}

#[test]
fn window_rewinds_after_hundred_lines() {
    let mut log = ServerLog::new();
    for k in 0..100 {
        let w = log.record(k, "t");
        assert!(!w.rewind);
    }
    assert_eq!(log.lines, 100);
    let w = log.record(1, "t");
    assert!(w.rewind);
    assert_eq!(log.lines, 1);
}

#[test]
fn record_now_stamps_time() {
    let mut log = ServerLog::new();
    let w = log.record_now(4);
    assert!(w.line.starts_with("Time: "));
    assert!(w.line.ends_with(", Reqestes/sec: 4, Avg Reqestes/sec: 2\n"));
    assert!(w.line.contains("UTC"));
}
