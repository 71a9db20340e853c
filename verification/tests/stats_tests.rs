use udp_cluster::client::{ClientLog, RequestLoop, REPORT_PERIOD_NANOS};
use udp_cluster::stats::{thread_line, thread_stats, totals_line, LogTable, ThreadStats, CLIENT_THREADS};

fn log(thread_id: i32, sent: i64, fulfilled: i64, latency_ms: u128, duration_ms: u128) -> ClientLog {
    ClientLog {
        thread_id,
        sent_request: sent,
        fulfilled_request: fulfilled,
        total_latency: latency_ms * 1_000_000,
        total_duration: duration_ms * 1_000_000,
    }
}

#[test]
fn stats_of_one_thread() {
    let st = thread_stats(log(4, 9, 8, 400, 20_000));
    assert_eq!(
        st,
        ThreadStats {
            thread_id: 4,
            sent: 10,
            fulfilled: 8,
            failed: 2,
            total_latency_ms: 400,
            total_duration_ms: 20_000,
            avg_latency_ms: 50,
        }
    );
}

#[test]
fn average_latency_without_replies_is_zero() {
    let st = thread_stats(log(0, 3, 0, 0, 1));
    assert_eq!(st.avg_latency_ms, 0);
    assert_eq!(st.failed, 4);
}

#[test]
fn milliseconds_are_truncated() {
    let mut l = log(0, 0, 1, 0, 0);
    l.total_latency = 1_999_999;
    assert_eq!(thread_stats(l).total_latency_ms, 1);
}

#[test]
fn empty_table() {
    let t = LogTable::new();
    let rows = t.thread_report();
    assert_eq!(rows.len(), CLIENT_THREADS);
    assert!(rows.iter().all(|r| r.sent == 1 && r.failed == 1 && r.thread_id == 0));
    let totals = t.totals();
    assert_eq!(totals.total_sent, 500);
    assert_eq!(totals.total_fulfilled, 0);
    assert_eq!(totals.total_failed, 500);
    assert_eq!(totals.avg_latency_ms, 0);
}

#[test]
fn recorded_thread_shows_in_report() {
    let mut t = LogTable::new();
    t.record(log(10, 99, 100, 1_000, 20_000));
    t.record(log(11, 19, 10, 5_000, 20_000));
    let rows = t.thread_report();
    assert_eq!(rows[10].thread_id, 10);
    assert_eq!(rows[10].sent, 100);
    assert_eq!(rows[10].failed, 0);
    assert_eq!(rows[10].avg_latency_ms, 10);
    assert_eq!(rows[11].avg_latency_ms, 500);
    let totals = t.totals();
    assert_eq!(totals.total_sent, 498 + 100 + 20);
    assert_eq!(totals.total_fulfilled, 110);
    assert_eq!(totals.total_failed, 498 + 10);
    assert_eq!(totals.total_sent, totals.total_fulfilled + totals.total_failed);
    assert_eq!(totals.avg_latency_ms, 510 / 500);
}

#[test]
fn later_report_replaces_earlier() {
    let mut t = LogTable::new();
    t.record(log(3, 5, 5, 10, 10));
    t.record(log(3, 7, 2, 10, 10));
    let rows = t.thread_report();
    assert_eq!(rows[3].sent, 8);
    assert_eq!(rows[3].fulfilled, 2);
}

#[test]
fn client_reports_are_recorded() {
    let mut l = RequestLoop::new(42);
    let mut table = LogTable::new();
    let mut reports = 0;
    for k in 0..10u128 {
        let m = l.request(k * REPORT_PERIOD_NANOS);
        let t = (k + 1) * REPORT_PERIOD_NANOS;
        let (_, log) = l.complete(Some(m), k * REPORT_PERIOD_NANOS + 2_000_000, t);
        if let Some(log) = log {
            table.record(log);
            reports += 1;
        }
    }
    assert_eq!(reports, 10);
    let row = table.thread_report()[42];
    assert_eq!(row.sent, 10);
    assert_eq!(row.fulfilled, 10);
    assert_eq!(row.failed, 0);
    assert_eq!(row.avg_latency_ms, 2);
}

#[test]
fn report_lines() {
    let st = thread_stats(log(4, 9, 8, 400, 20_000));
    assert_eq!(
        thread_line(&st, "0.4"),
        "Thread: 4, Sent: 10, Fullfilled: 8, failedRequests: 2, totalLatency: 400, totalDuration: 20000, avgLatency: 50, avgThroughput: 0.4\n"
    );
    let t = LogTable::new().totals();
    assert_eq!(
        totals_line(&t, "0"),
        "TOTAL SENT: 500, TOTAL FULLFILLED: 0, TOTAL FAILED: 500, AVG LATENCY: 0, TOTAL THROUGHPUT: 0"
    );
}

#[test]
fn order_of_threads_does_not_matter() {
    let a = log(1, 4, 3, 10, 20);
    let b = log(2, 6, 6, 30, 40);
    let mut t1 = LogTable::new();
    t1.record(a);
    t1.record(b);
    let mut t2 = LogTable::new();
    t2.record(log(1, 0, 0, 0, 0));
    t2.record(b);
    t2.record(a);
    t2.record(b);
    assert_eq!(t1.thread_report(), t2.thread_report());
    assert_eq!(t1.totals(), t2.totals());
}
