use udp_cluster::client::{ClientLog, ClientMessage, ReplyOutcome, RequestLoop, REPORT_PERIOD_NANOS};

#[test]
fn request_carries_count_and_time() {
    let l = RequestLoop::new(7);
    assert_eq!(
        l.request(123),
        ClientMessage { thread_id: 7, message_id: 0, duration: 123 }
    );
}

#[test]
fn answered_reply_is_measured() {
    let mut l = RequestLoop::new(3);
    let m = l.request(1_000);
    assert!(l.can_complete(Some(m), 4_000, 5_000));
    let (outcome, log) = l.complete(Some(m), 4_000, 5_000);
    assert_eq!(outcome, ReplyOutcome::Fulfilled { latency: 3_000 });
    assert!(log.is_none());
    assert_eq!(l.sent, 1);
    assert_eq!(l.fulfilled, 1);
    assert_eq!(l.total_latency, 3_000);
}

#[test]
fn failed_and_unmeasured_replies() {
    let mut l = RequestLoop::new(3);
    let m = l.request(1_000);
    let failed = ClientMessage { message_id: -1, ..m };
    let (outcome, _) = l.complete(Some(failed), 4_000, 5_000);
    assert_eq!(outcome, ReplyOutcome::Failed);
    let (outcome, _) = l.complete(None, 4_000, 5_000);
    assert_eq!(outcome, ReplyOutcome::Failed);
    let m = l.request(9_000);
    let (outcome, _) = l.complete(Some(m), 9_000, 9_000);
    assert_eq!(outcome, ReplyOutcome::Unmeasured);
    let (outcome, _) = l.complete(Some(m), 8_000, 9_000);
    assert_eq!(outcome, ReplyOutcome::Unmeasured);
    assert_eq!(l.sent, 4);
    assert_eq!(l.fulfilled, 0);
}

#[test]
fn report_every_twenty_seconds() {
    let mut l = RequestLoop::new(5);
    let m = l.request(0);
    let (_, log) = l.complete(Some(m), 10, REPORT_PERIOD_NANOS);
    assert_eq!(
        log,
        Some(ClientLog {
            thread_id: 5,
            sent_request: 0,
            fulfilled_request: 1,
            total_latency: 10,
            total_duration: REPORT_PERIOD_NANOS,
        })
    );
    assert_eq!(l.next_report, 2 * REPORT_PERIOD_NANOS);
    let m = l.request(REPORT_PERIOD_NANOS + 1);
    let (_, log) = l.complete(Some(m), REPORT_PERIOD_NANOS + 2, REPORT_PERIOD_NANOS + 3);
    assert!(log.is_none());
}

#[test]
fn overflow_is_refused_before_it_happens() {
    let mut l = RequestLoop::new(1);
    l.sent = i64::MAX;
    assert!(!l.can_complete(None, 0, 0));
}

#[test]
fn successive_reports_grow() {
    let mut l = RequestLoop::new(2);
    let mut reports: Vec<ClientLog> = vec![];
    for k in 0..30u128 {
        let now = k * REPORT_PERIOD_NANOS / 2;
        let m = l.request(now);
        let reply_at = if k % 3 == 0 { now } else { now + 1_000 };
        let (_, log) = l.complete(Some(m), reply_at, now + 2_000);
        if let Some(log) = log {
            reports.push(log);
        }
    }
    assert!(reports.len() > 5);
    for w in reports.windows(2) {
        assert!(w[0].sent_request < w[1].sent_request);
        assert!(w[0].fulfilled_request <= w[1].fulfilled_request);
        assert!(w[0].total_latency <= w[1].total_latency);
        assert!(w[0].total_duration <= w[1].total_duration);
    }
}
